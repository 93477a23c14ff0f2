use vstd::prelude::*;

verus! {

/// The flag of a time that holds a value.
pub const TIME_FLAG_VALID: u32 = 1;

/// A time: a count of units of which `scale` make one second.
#[derive(Clone, Copy, Debug, PartialEq, Eq, Structural)]
pub struct Time {
    pub value: i64,
    pub scale: i32,
    pub flags: u32,
    pub epoch: i64,
}

impl Time {
    /// The time that holds no value.
    #[inline]
    pub fn invalid() -> (t: Time)
        ensures
            t == (Time { value: 0, scale: 0, flags: 0, epoch: 0 }),
            !t.spec_is_valid(),
    {
        let t = Time { value: 0, scale: 0, flags: 0, epoch: 0 };
        assert(0u32 & 1u32 == 0u32) by (bit_vector);
        t
    }

    /// The time of `value` units of which `scale` make one second.
    #[inline]
    pub fn new(value: i64, scale: i32) -> (t: Time)
        ensures
            t == (Time { value, scale, flags: TIME_FLAG_VALID, epoch: 0 }),
            t.spec_is_valid(),
    {
        let t = Time { value, scale, flags: TIME_FLAG_VALID, epoch: 0 };
        assert(1u32 & 1u32 == 1u32) by (bit_vector);
        t
    }

    /// Whether the time holds a value: its valid flag is set.
    pub open spec fn spec_is_valid(&self) -> bool {
        self.flags & TIME_FLAG_VALID != 0
    }

    /// Whether the time holds a value.
    #[inline]
    pub fn is_valid(&self) -> (valid: bool)
        ensures
            valid == self.spec_is_valid(),
    {
        self.flags & TIME_FLAG_VALID != 0
    }
}

impl Default for Time {
    fn default() -> (t: Time)
        ensures
            t == (Time { value: 0, scale: 0, flags: 0, epoch: 0 }),
    {
        Time { value: 0, scale: 0, flags: 0, epoch: 0 }
    }
}

} // verus!
