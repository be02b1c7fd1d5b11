use vstd::prelude::*;

verus! {

/// The protocol version of a request.
#[derive(Debug, Clone, Copy, PartialEq, Eq, Structural)]
pub enum Version {
    Http09,
    Http10,
    Http11,
    Http2,
}

/// The content encoding a request asks for.
#[derive(Debug, Clone, Copy, PartialEq, Eq, Structural)]
pub enum ContentEncoding {
    Identity,
    Deflate,
    Gzip,
    Br,
    Auto,
}

/// The body of a request.
#[derive(Debug, Clone, PartialEq, Eq)]
pub enum Body {
    Empty,
    Binary(Vec<u8>),
    Streaming,
    Actor,
}

pub open spec fn version_text(v: Version) -> Seq<u8> {
    match v {
        Version::Http09 => seq![72u8, 84, 84, 80, 47, 48, 46, 57],
        Version::Http10 => seq![72u8, 84, 84, 80, 47, 49, 46, 48],
        Version::Http11 => seq![72u8, 84, 84, 80, 47, 49, 46, 49],
        Version::Http2 => seq![72u8, 84, 84, 80, 47, 50, 46, 48],
    }
}

impl Version {
    /// The version as it stands in a request line (`HTTP/1.1`).
    pub fn as_bytes(&self) -> (r: Vec<u8>)
        ensures
            r@ == version_text(*self),
    {
        let r: Vec<u8> = match self {
            Version::Http09 => vec![72u8, 84, 84, 80, 47, 48, 46, 57],
            Version::Http10 => vec![72u8, 84, 84, 80, 47, 49, 46, 48],
            Version::Http11 => vec![72u8, 84, 84, 80, 47, 49, 46, 49],
            Version::Http2 => vec![72u8, 84, 84, 80, 47, 50, 46, 48],
        };
        assert(r@ =~= version_text(*self));
        r
    }
}

pub open spec fn is_compression(e: ContentEncoding) -> bool {
    e == ContentEncoding::Deflate || e == ContentEncoding::Gzip || e == ContentEncoding::Br
}

pub open spec fn encoding_name(e: ContentEncoding) -> Seq<u8> {
    match e {
        ContentEncoding::Deflate => seq![100u8, 101, 102, 108, 97, 116, 101],
        ContentEncoding::Gzip => seq![103u8, 122, 105, 112],
        ContentEncoding::Br => seq![98u8, 114],
        ContentEncoding::Identity => seq![105u8, 100, 101, 110, 116, 105, 116, 121],
        ContentEncoding::Auto => seq![97u8, 117, 116, 111],
    }
}

impl ContentEncoding {
    /// True for the encodings that compress.
    pub fn is_compression(&self) -> (r: bool)
        ensures
            r == is_compression(*self),
    {
        match self {
            ContentEncoding::Deflate | ContentEncoding::Gzip | ContentEncoding::Br => true,
            _ => false,
        }
    }

    /// The token for a `Content-Encoding` header.
    pub fn as_bytes(&self) -> (r: Vec<u8>)
        ensures
            r@ == encoding_name(*self),
    {
        let r: Vec<u8> = match self {
            ContentEncoding::Deflate => vec![100u8, 101, 102, 108, 97, 116, 101],
            ContentEncoding::Gzip => vec![103u8, 122, 105, 112],
            ContentEncoding::Br => vec![98u8, 114],
            ContentEncoding::Identity => vec![105u8, 100, 101, 110, 116, 105, 116, 121],
            ContentEncoding::Auto => vec![97u8, 117, 116, 111],
        };
        assert(r@ =~= encoding_name(*self));
        r
    }
}

pub type Hdr = (Seq<u8>, Seq<u8>);

/// The entries without those named `n`, in order.
pub open spec fn removed(h: Seq<Hdr>, n: Seq<u8>) -> Seq<Hdr>
    decreases h.len(),
{
    if h.len() == 0 {
        seq![]
    } else if h.last().0 == n {
        removed(h.drop_last(), n)
    } else {
        removed(h.drop_last(), n).push(h.last())
    }
}

/// The first entry named `n` takes the value `v`; later ones are dropped.
pub open spec fn replaced(h: Seq<Hdr>, n: Seq<u8>, v: Seq<u8>) -> Seq<Hdr>
    decreases h.len(),
{
    if h.len() == 0 {
        seq![]
    } else if h.last().0 == n {
        if lookup(h.drop_last(), n) is Some {
            replaced(h.drop_last(), n, v)
        } else {
            replaced(h.drop_last(), n, v).push((n, v))
        }
    } else {
        replaced(h.drop_last(), n, v).push(h.last())
    }
}

/// `n` now holds the single value `v`: in the place of its first entry if
/// it had one, else appended.
pub open spec fn inserted(h: Seq<Hdr>, n: Seq<u8>, v: Seq<u8>) -> Seq<Hdr> {
    if lookup(h, n) is Some { replaced(h, n, v) } else { h.push((n, v)) }
}

/// The first value under `n`.
pub open spec fn lookup(h: Seq<Hdr>, n: Seq<u8>) -> Option<Seq<u8>>
    decreases h.len(),
{
    if h.len() == 0 {
        None
    } else {
        match lookup(h.drop_last(), n) {
            Some(v) => Some(v),
            None => if h.last().0 == n { Some(h.last().1) } else { None },
        }
    }
}

proof fn lemma_lookup_prefix(h: Seq<Hdr>, k: int, n: Seq<u8>)
    requires
        0 <= k <= h.len(),
        lookup(h.take(k), n) is Some,
    ensures
        lookup(h, n) == lookup(h.take(k), n),
    decreases h.len(),
{
    if k < h.len() {
        assert(h.drop_last().take(k) =~= h.take(k));
        lemma_lookup_prefix(h.drop_last(), k, n);
    } else {
        assert(h.take(k) =~= h);
    }
}

proof fn lemma_replaced_absent(h: Seq<Hdr>, n: Seq<u8>, v: Seq<u8>)
    requires
        lookup(h, n) is None,
    ensures
        replaced(h, n, v) == h,
    decreases h.len(),
{
    if h.len() > 0 {
        lemma_replaced_absent(h.drop_last(), n, v);
        assert(h.drop_last().push(h.last()) =~= h);
    }
}

/// An ordered list of header entries; names are compared byte for byte
/// and kept in lower case by convention.
#[derive(Debug, Clone, PartialEq, Eq)]
pub struct Headers {
    pub entries: Vec<(Vec<u8>, Vec<u8>)>,
}

impl View for Headers {
    type V = Seq<Hdr>;

    open spec fn view(&self) -> Seq<Hdr> {
        self.entries@.map_values(|e: (Vec<u8>, Vec<u8>)| (e.0@, e.1@))
    }
}

/// Byte-for-byte equality.
pub fn bytes_eq(a: &[u8], b: &[u8]) -> (r: bool)
    ensures
        r == (a@ == b@),
{
    if a.len() != b.len() {
        return false;
    }
    let mut i: usize = 0;
    while i < a.len()
        invariant
            a.len() == b.len(),
            i <= a.len(),
            forall|j: int| 0 <= j < i ==> a@[j] == b@[j],
        decreases a.len() - i,
    {
        if a[i] != b[i] {
            return false;
        }
        i = i + 1;
    }
    assert(a@ =~= b@);
    true
}

fn copy_bytes(s: &[u8]) -> (r: Vec<u8>)
    ensures
        r@ == s@,
{
    let mut r: Vec<u8> = Vec::new();
    r.extend_from_slice(s);
    r
}

impl Headers {
    pub fn new() -> (r: Headers)
        ensures
            r@ == Seq::<Hdr>::empty(),
    {
        let r = Headers { entries: Vec::new() };
        assert(r@ =~= Seq::<Hdr>::empty());
        r
    }

    pub fn len(&self) -> (r: usize)
        ensures
            r == self@.len(),
    {
        self.entries.len()
    }

    /// Appends an entry, keeping any others of that name.
    pub fn append(&mut self, name: &[u8], value: &[u8])
        ensures
            final(self)@ == old(self)@.push((name@, value@)),
    {
        let e = (copy_bytes(name), copy_bytes(value));
        self.entries.push(e);
        assert(self@ =~= old(self)@.push((name@, value@)));
    }

    /// The first value under `name`.
    pub fn get(&self, name: &[u8]) -> (r: Option<&Vec<u8>>)
        ensures
            match r {
                Some(v) => lookup(self@, name@) == Some(v@),
                None => lookup(self@, name@) is None,
            },
    {
        let mut i: usize = 0;
        while i < self.entries.len()
            invariant
                i <= self.entries.len(),
                lookup(self@.take(i as int), name@) is None,
            decreases self.entries.len() - i,
        {
            assert(self@.take(i as int + 1).drop_last() =~= self@.take(i as int));
            assert(self@[i as int] == (self.entries@[i as int].0@, self.entries@[i as int].1@));
            assert(self@.take(i as int + 1).last() == self@[i as int]);
            if bytes_eq(self.entries[i].0.as_slice(), name) {
                proof {
                    lemma_lookup_prefix(self@, i as int + 1, name@);
                }
                return Some(&self.entries[i].1);
            }
            i = i + 1;
        }
        assert(self@.take(i as int) =~= self@);
        None
    }

    pub fn contains(&self, name: &[u8]) -> (r: bool)
        ensures
            r == lookup(self@, name@) is Some,
    {
        self.get(name).is_some()
    }

    /// Drops every entry named `name`.
    pub fn remove(&mut self, name: &[u8])
        ensures
            final(self)@ == removed(old(self)@, name@),
    {
        let mut old_entries: Vec<(Vec<u8>, Vec<u8>)> = Vec::new();
        std::mem::swap(&mut old_entries, &mut self.entries);
        let ghost h = old(self)@;
        assert(h == old_entries@.map_values(|e: (Vec<u8>, Vec<u8>)| (e.0@, e.1@)));
        let mut i: usize = 0;
        while i < old_entries.len()
            invariant
                i <= old_entries.len(),
                h == old_entries@.map_values(|e: (Vec<u8>, Vec<u8>)| (e.0@, e.1@)),
                self@ == removed(h.take(i as int), name@),
            decreases old_entries.len() - i,
        {
            assert(h.take(i as int + 1).drop_last() =~= h.take(i as int));
            let e = &old_entries[i];
            assert(h[i as int] == (e.0@, e.1@));
            assert(h.take(i as int + 1).last() == h[i as int]);
            if !bytes_eq(e.0.as_slice(), name) {
                let c = (copy_bytes(e.0.as_slice()), copy_bytes(e.1.as_slice()));
                self.entries.push(c);
                assert(self@ =~= removed(h.take(i as int), name@).push(h[i as int]));
            } else {
                assert(self@ == removed(h.take(i as int + 1), name@));
            }
            i = i + 1;
        }
        assert(h.take(i as int) =~= h);
    }

    /// Sets `name` to the single value `value`, in the place of its first
    /// entry if it has one.
    pub fn insert(&mut self, name: &[u8], value: &[u8])
        ensures
            final(self)@ == inserted(old(self)@, name@, value@),
    {
        let mut old_entries: Vec<(Vec<u8>, Vec<u8>)> = Vec::new();
        std::mem::swap(&mut old_entries, &mut self.entries);
        let ghost h = old(self)@;
        assert(h == old_entries@.map_values(|e: (Vec<u8>, Vec<u8>)| (e.0@, e.1@)));
        let mut found = false;
        let mut i: usize = 0;
        while i < old_entries.len()
            invariant
                i <= old_entries.len(),
                h == old_entries@.map_values(|e: (Vec<u8>, Vec<u8>)| (e.0@, e.1@)),
                self@ == replaced(h.take(i as int), name@, value@),
                found == lookup(h.take(i as int), name@) is Some,
            decreases old_entries.len() - i,
        {
            assert(h.take(i as int + 1).drop_last() =~= h.take(i as int));
            let e = &old_entries[i];
            assert(h[i as int] == (e.0@, e.1@));
            assert(h.take(i as int + 1).last() == h[i as int]);
            if !bytes_eq(e.0.as_slice(), name) {
                let c = (copy_bytes(e.0.as_slice()), copy_bytes(e.1.as_slice()));
                self.entries.push(c);
                assert(self@ =~= replaced(h.take(i as int), name@, value@).push(h[i as int]));
            } else if !found {
                let c = (copy_bytes(name), copy_bytes(value));
                self.entries.push(c);
                assert(self@ =~= replaced(h.take(i as int), name@, value@).push((name@, value@)));
                found = true;
            }
            i = i + 1;
        }
        assert(h.take(i as int) =~= h);
        if !found {
            proof {
                lemma_replaced_absent(h, name@, value@);
            }
            self.append(name, value);
        }
    }
}

pub open spec fn digit_byte(d: nat) -> u8 {
    (48 + d) as u8
}

/// Decimal ASCII digits of `n`, without leading zeros.
pub open spec fn decimal(n: nat) -> Seq<u8>
    decreases n,
{
    if n < 10 { seq![digit_byte(n)] } else { decimal(n / 10).push(digit_byte(n % 10)) }
}

/// Appends the decimal digits of `n` to `out`.
pub fn push_decimal(out: &mut Vec<u8>, n: u64)
    ensures
        final(out)@ == old(out)@ + decimal(n as nat),
    decreases n,
{
    if n < 10 {
        out.push(48 + n as u8);
    } else {
        push_decimal(out, n / 10);
        out.push(48 + (n % 10) as u8);
    }
}

pub open spec fn is_digit(b: u8) -> bool {
    48 <= b && b <= 57
}

/// The value of a run of decimal digits.
pub open spec fn digits_value(s: Seq<u8>) -> nat
    decreases s.len(),
{
    if s.len() == 0 { 0 } else { digits_value(s.drop_last()) * 10 + (s.last() - 48) as nat }
}

pub open spec fn all_digits(s: Seq<u8>) -> bool {
    forall|i: int| 0 <= i < s.len() ==> is_digit(#[trigger] s[i])
}

/// The digits of a number as `u64`'s parser reads it: an optional `+`
/// sign, then at least one digit.
pub open spec fn unsigned_digits(s: Seq<u8>) -> Seq<u8> {
    if s.len() > 0 && s[0] == 43u8 { s.drop_first() } else { s }
}

/// What parsing `s` as a `u64` yields.
pub open spec fn parsed_u64(s: Seq<u8>) -> Option<u64> {
    let d = unsigned_digits(s);
    if d.len() > 0 && all_digits(d) && digits_value(d) <= u64::MAX {
        Some(digits_value(d) as u64)
    } else {
        None
    }
}

/// Reads a decimal `u64`, such as the value of a `Content-Length` header.
pub fn parse_u64(s: &[u8]) -> (r: Option<u64>)
    ensures
        r == parsed_u64(s@),
{
    let start: usize = if s.len() > 0 && s[0] == 43u8 { 1 } else { 0 };
    let ghost d = unsigned_digits(s@);
    assert(d =~= s@.subrange(start as int, s@.len() as int));
    if start >= s.len() {
        return None;
    }
    let mut acc: u64 = 0;
    let mut over = false;
    let mut i: usize = start;
    while i < s.len()
        invariant
            start <= i <= s.len(),
            d =~= s@.subrange(start as int, s@.len() as int),
            d == unsigned_digits(s@),
            all_digits(d.take(i - start)),
            over <==> digits_value(d.take(i - start)) > u64::MAX,
            !over ==> acc == digits_value(d.take(i - start)),
        decreases s.len() - i,
    {
        let b = s[i];
        if b < 48 || b > 57 {
            assert(d[i - start] == b);
            assert(!is_digit(d[i - start]));
            assert(!all_digits(d));
            return None;
        }
        let ghost k = i - start;
        assert(d.take(k + 1).drop_last() =~= d.take(k));
        assert(d.take(k + 1).last() == b);
        let dv: u64 = (b - 48) as u64;
        assert(digits_value(d.take(k + 1)) == digits_value(d.take(k)) * 10 + dv);
        if !over {
            if acc > (u64::MAX - dv) / 10 {
                over = true;
                assert(digits_value(d.take(k)) * 10 + dv > u64::MAX) by (nonlinear_arith)
                    requires
                        acc == digits_value(d.take(k)),
                        acc > (u64::MAX - dv) / 10,
                        dv <= 9,
                ;
            } else {
                assert(acc * 10 + dv <= u64::MAX) by (nonlinear_arith)
                    requires
                        acc <= (u64::MAX - dv) / 10,
                        dv <= 9,
                ;
                acc = acc * 10 + dv;
            }
        } else {
            assert(digits_value(d.take(k)) * 10 + dv > u64::MAX) by (nonlinear_arith)
                requires
                    digits_value(d.take(k)) > u64::MAX,
            ;
        }
        assert(forall|j: int| 0 <= j < k ==> #[trigger] d.take(k + 1)[j] == d.take(k)[j]);
        assert(is_digit(d.take(k + 1)[k]));
        i = i + 1;
    }
    assert(d.take(i - start) =~= d);
    if over {
        None
    } else {
        Some(acc)
    }
}

/// An outgoing request, as the writer consumes it.
#[derive(Debug, Clone, PartialEq, Eq)]
pub struct ClientRequest {
    pub method: Vec<u8>,
    pub path: Vec<u8>,
    pub version: Version,
    pub headers: Headers,
    pub body: Body,
    pub upgrade: bool,
    pub chunked: bool,
    pub encoding: ContentEncoding,
}

} // verus!
