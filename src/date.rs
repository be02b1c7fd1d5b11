use vstd::prelude::*;

verus! {

/// The length of a formatted date, as in `Sun, 06 Nov 1994 08:49:37 GMT`.
pub const DATE_VALUE_LENGTH: usize = 29;

/// The last second whose year has four digits (9999-12-31 23:59:59 UTC).
pub const MAX_DATE_SECS: i64 = 253402300799;

/// The RFC 822 text, in GMT, of the second `sec` after the epoch.
pub uninterp spec fn rfc822_of(sec: i64) -> Seq<u8>;

/// Relies on time::at_utc and time::Tm::rfc822: the format
/// `%a, %d %b %Y %T GMT`, which spells out every field down to the second,
/// so that different seconds of four-digit years read differently.
#[verifier::external_body]
fn format_rfc822(sec: i64) -> (r: Vec<u8>)
    requires
        0 <= sec <= MAX_DATE_SECS,
    ensures
        r@ == rfc822_of(sec),
        r@.len() == DATE_VALUE_LENGTH,
        forall|s: i64| 0 <= s <= MAX_DATE_SECS && s != sec ==> rfc822_of(s) != r@,
{
    time::at_utc(time::Timespec::new(sec, 0)).rfc822().to_string().into_bytes()
}

/// Relies on time::get_time: the wall clock now, as seconds and
/// nanoseconds, the nanoseconds below one second.
#[verifier::external_body]
fn clock_now() -> (r: (i64, i32))
    ensures
        0 <= r.1 < 1_000_000_000,
{
    let t = time::get_time();
    (t.sec, t.nsec)
}

/// `(s1, n1)` is strictly later than `(s2, n2)`.
pub open spec fn later(s1: i64, n1: i32, s2: i64, n2: i32) -> bool {
    s1 > s2 || (s1 == s2 && n1 > n2)
}

/// The formatted current time, refreshed at most once a second.
#[derive(Debug, Clone, PartialEq, Eq)]
pub struct CachedDate {
    pub bytes: Vec<u8>,
    pub next_sec: i64,
    pub next_nsec: i32,
}

impl CachedDate {
    pub open spec fn wf(&self) -> bool {
        &&& self.next_nsec == 0
        &&& self.next_sec <= MAX_DATE_SECS + 1
        &&& self.bytes@.len() == DATE_VALUE_LENGTH
    }

    /// `after` is this cache after the clock read `(sec, nsec)`; a clock
    /// outside the years 1970 to 9999 changes nothing.
    pub open spec fn clock_read(self, after: CachedDate, sec: i64, nsec: i32) -> bool {
        &&& 0 <= nsec < 1_000_000_000
        &&& if 0 <= sec <= MAX_DATE_SECS { self.read_at(after, sec, nsec) } else { after == self }
    }

    /// `after` is this cache after a read at `(sec, nsec)`.
    pub open spec fn read_at(self, after: CachedDate, sec: i64, nsec: i32) -> bool {
        &&& after.wf()
        &&& (after.next_sec, after.next_nsec) == self.next_refresh(sec, nsec)
        &&& later(sec, nsec, self.next_sec, self.next_nsec) ==> after.bytes@ == rfc822_of(sec)
        &&& !later(sec, nsec, self.next_sec, self.next_nsec) ==> after == self
    }

    /// The instant of the next refresh after a read at `(sec, nsec)`.
    pub open spec fn next_refresh(self, sec: i64, nsec: i32) -> (i64, i32) {
        if later(sec, nsec, self.next_sec, self.next_nsec) {
            ((sec + 1) as i64, 0i32)
        } else {
            (self.next_sec, self.next_nsec)
        }
    }

    /// An empty cache, due for refresh at the epoch.
    pub fn new() -> (r: CachedDate)
        ensures
            r.wf(),
            r.bytes@ == Seq::new(DATE_VALUE_LENGTH as nat, |i: int| 0u8),
            r.next_sec == 0,
    {
        let mut bytes: Vec<u8> = Vec::new();
        let mut i: usize = 0;
        while i < DATE_VALUE_LENGTH
            invariant
                i <= DATE_VALUE_LENGTH,
                bytes@ == Seq::new(i as nat, |j: int| 0u8),
            decreases DATE_VALUE_LENGTH - i,
        {
            bytes.push(0);
            i = i + 1;
            assert(bytes@ =~= Seq::new(i as nat, |j: int| 0u8));
        }
        CachedDate { bytes, next_sec: 0, next_nsec: 0 }
    }

    /// The cached text.
    pub fn buffer(&self) -> (r: &[u8])
        ensures
            r@ == self.bytes@,
    {
        self.bytes.as_slice()
    }

    /// Formats the second `sec` and schedules the next refresh one second on.
    pub fn update(&mut self, sec: i64)
        requires
            0 <= sec <= MAX_DATE_SECS,
        ensures
            final(self).bytes@ == rfc822_of(sec),
            final(self).bytes@.len() == DATE_VALUE_LENGTH,
            forall|s: i64| 0 <= s <= MAX_DATE_SECS && s != sec ==> rfc822_of(s) != final(self).bytes@,
            final(self).next_sec == sec + 1,
            final(self).next_nsec == 0,
            final(self).wf(),
    {
        self.bytes = format_rfc822(sec);
        self.next_sec = sec + 1;
        self.next_nsec = 0;
    }

    /// A read at `(sec, nsec)`: refreshes the text if that instant is past
    /// the scheduled refresh.
    pub fn refresh(&mut self, sec: i64, nsec: i32)
        requires
            old(self).wf(),
            0 <= sec <= MAX_DATE_SECS,
        ensures
            final(self).wf(),
            (final(self).next_sec, final(self).next_nsec) == old(self).next_refresh(sec, nsec),
            later(sec, nsec, old(self).next_sec, old(self).next_nsec) ==> {
                &&& final(self).bytes@ == rfc822_of(sec)
                &&& forall|s: i64| 0 <= s <= MAX_DATE_SECS && s != sec ==> rfc822_of(s) != final(self).bytes@
            },
            !later(sec, nsec, old(self).next_sec, old(self).next_nsec) ==> *final(self) == *old(self),
    {
        if sec > self.next_sec || (sec == self.next_sec && nsec > self.next_nsec) {
            self.update(sec);
        }
    }

    /// The text for the current wall-clock second. A clock outside the
    /// years 1970 to 9999 leaves the cache as it was.
    pub fn current(&mut self) -> (r: &[u8])
        requires
            old(self).wf(),
        ensures
            final(self).wf(),
            r@ == final(self).bytes@,
            r@.len() == DATE_VALUE_LENGTH,
            exists|sec: i64, nsec: i32| old(self).clock_read(*final(self), sec, nsec),
    {
        let (sec, nsec) = clock_now();
        if 0 <= sec && sec <= MAX_DATE_SECS {
            self.refresh(sec, nsec);
        }
        assert(old(self).clock_read(*self, sec, nsec));
        self.bytes.as_slice()
    }
}

} // verus!
