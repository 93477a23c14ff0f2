use cidre::cf;
use cidre::cf::Type;
use cidre::foreign::Runtime;

fn show(rt: &Runtime, object: &Type) {
    println!(
        "<object {:#x}> type {} retain count {}",
        object.as_type_ptr(),
        object.get_type_id(rt),
        rt.retain_count(object)
    );
}

#[test]
fn it_works() {
    let mut rt = Runtime::new();
    let f = {
        let null = cf::Null::value(&mut rt);
        show(&rt, &null);

        let num = cf::Number::from_i16(&mut rt, 0);
        let arr =
            cf::Array::from_type_refs(&mut rt, &[*null.as_type_ref(), *num.as_type_ref()]).unwrap();

        let v = b"he".to_vec();
        let _s = cf::String::create_with_bytes_no_copy_in(
            &mut rt,
            &v,
            cf::StringEncoding::UTF8,
            false,
            Some(&cf::Allocator::null()),
            None,
        )
        .unwrap();

        let _f = num;

        show(&rt, &arr);
        _s.release(&mut rt);
        _f.release(&mut rt);
        null.release(&mut rt);
        arr
    };

    show(&rt, &f);
    f.release(&mut rt);
}
