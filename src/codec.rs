//! Primitive binary encoding: little-endian `u64`, single bytes and
//! length-prefixed byte strings, with parsers proved inverse to the encoders.
use vstd::bytes::*;
use vstd::prelude::*;

verus! {


/// Encoding of a `u64`: eight little-endian bytes.
pub open spec fn enc_u64(x: u64) -> Seq<u8> {
    spec_u64_to_le_bytes(x)
}

/// Reads a `u64` from the front of `s`; yields the value and the bytes used.
pub open spec fn parse_u64(s: Seq<u8>) -> Option<(u64, int)> {
    if s.len() >= 8 {
        Some((spec_u64_from_le_bytes(s.subrange(0, 8)), 8))
    } else {
        None
    }
}

/// Encoding of a byte string: its length as `u64`, then the bytes.
pub open spec fn enc_bytes(b: Seq<u8>) -> Seq<u8> {
    enc_u64(b.len() as u64) + b
}

/// Reads a length-prefixed byte string from the front of `s`.
pub open spec fn parse_bytes(s: Seq<u8>) -> Option<(Seq<u8>, int)> {
    match parse_u64(s) {
        Some((n, k)) => if s.len() - k >= n {
            Some((s.subrange(k, k + n), k + n))
        } else {
            None
        },
        None => None,
    }
}

/// Encoding of a single byte.
pub open spec fn enc_u8(x: u8) -> Seq<u8> {
    seq![x]
}

/// Reads one byte from the front of `s`.
pub open spec fn parse_u8(s: Seq<u8>) -> Option<(u8, int)> {
    if s.len() >= 1 {
        Some((s[0], 1))
    } else {
        None
    }
}

pub proof fn lemma_u64_round_trip(x: u64, rest: Seq<u8>)
    ensures
        enc_u64(x).len() == 8,
        parse_u64(enc_u64(x) + rest) == Some((x, 8int)),
{
    lemma_auto_spec_u64_to_from_le_bytes();
    assert((enc_u64(x) + rest).subrange(0, 8) =~= enc_u64(x));
}

pub proof fn lemma_bytes_round_trip(b: Seq<u8>, rest: Seq<u8>)
    requires
        b.len() <= u64::MAX,
    ensures
        enc_bytes(b).len() == 8 + b.len(),
        parse_bytes(enc_bytes(b) + rest) == Some((b, enc_bytes(b).len() as int)),
{
    lemma_auto_spec_u64_to_from_le_bytes();
    let s = enc_bytes(b) + rest;
    assert(s =~= enc_u64(b.len() as u64) + (b + rest));
    lemma_u64_round_trip(b.len() as u64, b + rest);
    assert(s.subrange(8, 8 + b.len() as int) =~= b);
}

/// Appends the encoding of `x` to `out`.
pub fn write_u64(out: &mut Vec<u8>, x: u64)
    ensures
        final(out)@ == old(out)@ + enc_u64(x),
{
    let mut b = u64_to_le_bytes(x);
    out.append(&mut b);
}

/// Appends the single byte `x` to `out`.
pub fn write_u8(out: &mut Vec<u8>, x: u8)
    ensures
        final(out)@ == old(out)@ + enc_u8(x),
{
    out.push(x);
    assert(final(out)@ =~= old(out)@ + enc_u8(x));
}

/// Appends the length-prefixed encoding of `b` to `out`.
pub fn write_bytes(out: &mut Vec<u8>, b: &Vec<u8>)
    ensures
        final(out)@ == old(out)@ + enc_bytes(b@),
        b@.len() <= u64::MAX,
{
    assert(usize::MAX <= u64::MAX);
    write_u64(out, b.len() as u64);
    let ghost mid = out@;
    let mut i: usize = 0;
    while i < b.len()
        invariant
            0 <= i <= b.len(),
            out@ == mid + b@.subrange(0, i as int),
        decreases b.len() - i,
    {
        out.push(b[i]);
        i = i + 1;
        assert(out@ =~= mid + b@.subrange(0, i as int));
    }
    assert(b@.subrange(0, b.len() as int) =~= b@);
    assert(out@ =~= old(out)@ + enc_bytes(b@));
}

/// Reads a `u64` at `pos`; `Some((x, next))` gives the value and the position after it.
pub fn read_u64(data: &Vec<u8>, pos: usize) -> (r: Option<(u64, usize)>)
    requires
        pos <= data@.len(),
    ensures
        match r {
            None => parse_u64(data@.subrange(pos as int, data@.len() as int)) is None,
            Some((x, next)) => pos <= next <= data@.len() && parse_u64(
                data@.subrange(pos as int, data@.len() as int),
            ) == Some((x, next - pos)),
        },
{
    if data.len() - pos < 8 {
        return None;
    }
    let end: usize = pos + 8;
    let mut b: Vec<u8> = Vec::new();
    let mut i: usize = 0;
    while i < 8
        invariant
            0 <= i <= 8,
            end == pos + 8,
            end <= data@.len(),
            b@ == data@.subrange(pos as int, pos + i),
        decreases 8 - i,
    {
        b.push(data[pos + i]);
        i = i + 1;
        assert(b@ =~= data@.subrange(pos as int, pos + i));
    }
    let x = u64_from_le_bytes(b.as_slice());
    assert(data@.subrange(pos as int, data@.len() as int).subrange(0, 8) =~= b@);
    Some((x, pos + 8))
}

/// Reads one byte at `pos`.
pub fn read_u8(data: &Vec<u8>, pos: usize) -> (r: Option<(u8, usize)>)
    requires
        pos <= data@.len(),
    ensures
        match r {
            None => parse_u8(data@.subrange(pos as int, data@.len() as int)) is None,
            Some((x, next)) => pos <= next <= data@.len() && parse_u8(
                data@.subrange(pos as int, data@.len() as int),
            ) == Some((x, next - pos)),
        },
{
    if pos >= data.len() {
        return None;
    }
    Some((data[pos], pos + 1))
}

/// Reads a length-prefixed byte string at `pos`.
pub fn read_bytes(data: &Vec<u8>, pos: usize) -> (r: Option<(Vec<u8>, usize)>)
    requires
        pos <= data@.len(),
    ensures
        match r {
            None => parse_bytes(data@.subrange(pos as int, data@.len() as int)) is None,
            Some((b, next)) => pos <= next <= data@.len() && parse_bytes(
                data@.subrange(pos as int, data@.len() as int),
            ) == Some((b@, next - pos)),
        },
{
    let (n, start) = match read_u64(data, pos) {
        Some(p) => p,
        None => return None,
    };
    if ((data.len() - start) as u64) < n {
        return None;
    }
    let end = start + n as usize;
    let mut b: Vec<u8> = Vec::new();
    let mut i: usize = start;
    while i < end
        invariant
            start <= i <= end <= data@.len(),
            b@ == data@.subrange(start as int, i as int),
        decreases end - i,
    {
        b.push(data[i]);
        i = i + 1;
        assert(b@ =~= data@.subrange(start as int, i as int));
    }
    let ghost s = data@.subrange(pos as int, data@.len() as int);
    assert(s.subrange(start - pos, start - pos + n) =~= b@);
    Some((b, end))
}

/// A type with a binary encoding over its view and a parser proved inverse to it.
pub trait Codec: Sized + View {
    /// The encoding of a value.
    spec fn enc(v: Self::V) -> Seq<u8>;

    /// Reads a value from the front of `s`; yields the value and the bytes used.
    spec fn parse(s: Seq<u8>) -> Option<(Self::V, int)>;

    /// Every length inside the value fits in a `u64` prefix.
    spec fn fits(v: Self::V) -> bool;

    proof fn lemma_round_trip(v: Self::V, rest: Seq<u8>)
        requires
            Self::fits(v),
        ensures
            Self::parse(Self::enc(v) + rest) == Some((v, Self::enc(v).len() as int)),
    ;

    fn write(&self, out: &mut Vec<u8>)
        ensures
            final(out)@ == old(out)@ + Self::enc(self@),
            Self::fits(self@),
    ;

    fn read(data: &Vec<u8>, pos: usize) -> (r: Option<(Self, usize)>)
        requires
            pos <= data@.len(),
        ensures
            match r {
                None => Self::parse(data@.subrange(pos as int, data@.len() as int)) is None,
                Some((x, next)) => pos <= next <= data@.len() && Self::parse(
                    data@.subrange(pos as int, data@.len() as int),
                ) == Some((x@, next - pos)),
            },
    ;
}

impl Codec for Vec<u8> {
    open spec fn enc(v: Seq<u8>) -> Seq<u8> {
        enc_bytes(v)
    }

    open spec fn parse(s: Seq<u8>) -> Option<(Seq<u8>, int)> {
        parse_bytes(s)
    }

    open spec fn fits(v: Seq<u8>) -> bool {
        v.len() <= u64::MAX
    }

    proof fn lemma_round_trip(v: Seq<u8>, rest: Seq<u8>) {
        lemma_bytes_round_trip(v, rest);
    }

    fn write(&self, out: &mut Vec<u8>) {
        write_bytes(out, self);
    }

    fn read(data: &Vec<u8>, pos: usize) -> (r: Option<(Vec<u8>, usize)>) {
        read_bytes(data, pos)
    }
}

/// The views of the elements of `xs`, in order.
pub open spec fn views<T: View>(xs: Seq<T>) -> Seq<T::V> {
    xs.map_values(|x: T| x@)
}

/// Concatenated encodings of the items, without a count.
pub open spec fn enc_items<T: Codec>(xs: Seq<T::V>) -> Seq<u8>
    decreases xs.len(),
{
    if xs.len() == 0 {
        Seq::empty()
    } else {
        enc_items::<T>(xs.drop_last()) + T::enc(xs.last())
    }
}

/// Encoding of a list: the count as `u64`, then each item.
pub open spec fn enc_list<T: Codec>(xs: Seq<T::V>) -> Seq<u8> {
    enc_u64(xs.len() as u64) + enc_items::<T>(xs)
}

/// Reads `n` items one after another from the front of `s`.
pub open spec fn parse_items<T: Codec>(s: Seq<u8>, n: nat) -> Option<(Seq<T::V>, int)>
    decreases n,
{
    if n == 0 {
        Some((Seq::empty(), 0))
    } else {
        match T::parse(s) {
            Some((a, k)) => if 0 <= k <= s.len() {
                match parse_items::<T>(s.subrange(k, s.len() as int), (n - 1) as nat) {
                    Some((xs, m)) => Some((seq![a] + xs, k + m)),
                    None => None,
                }
            } else {
                None
            },
            None => None,
        }
    }
}

/// Reads a counted list from the front of `s`.
pub open spec fn parse_list<T: Codec>(s: Seq<u8>) -> Option<(Seq<T::V>, int)> {
    match parse_u64(s) {
        Some((n, k)) => match parse_items::<T>(s.subrange(k, s.len() as int), n as nat) {
            Some((xs, m)) => Some((xs, k + m)),
            None => None,
        },
        None => None,
    }
}

/// The list and every item in it fit their length prefixes.
pub open spec fn list_fits<T: Codec>(xs: Seq<T::V>) -> bool {
    &&& xs.len() <= u64::MAX
    &&& forall|i: int| 0 <= i < xs.len() ==> #[trigger] T::fits(xs[i])
}

pub proof fn lemma_enc_items_front<T: Codec>(xs: Seq<T::V>)
    requires
        xs.len() > 0,
    ensures
        enc_items::<T>(xs) == T::enc(xs[0]) + enc_items::<T>(xs.drop_first()),
    decreases xs.len(),
{
    if xs.len() > 1 {
        lemma_enc_items_front::<T>(xs.drop_last());
        assert(xs.drop_last().drop_first() =~= xs.drop_first().drop_last());
        assert(xs.drop_last()[0] == xs[0]);
        assert(xs.drop_first().last() == xs.last());
    } else {
        assert(xs.drop_first() =~= Seq::<T::V>::empty());
        assert(xs.drop_last() =~= Seq::<T::V>::empty());
    }
}

pub proof fn lemma_items_round_trip<T: Codec>(xs: Seq<T::V>, rest: Seq<u8>)
    requires
        forall|i: int| 0 <= i < xs.len() ==> #[trigger] T::fits(xs[i]),
    ensures
        parse_items::<T>(enc_items::<T>(xs) + rest, xs.len()) == Some(
            (xs, enc_items::<T>(xs).len() as int),
        ),
    decreases xs.len(),
{
    if xs.len() > 0 {
        lemma_enc_items_front::<T>(xs);
        let tail = xs.drop_first();
        let s = enc_items::<T>(xs) + rest;
        assert(s =~= T::enc(xs[0]) + (enc_items::<T>(tail) + rest));
        T::lemma_round_trip(xs[0], enc_items::<T>(tail) + rest);
        let k = T::enc(xs[0]).len() as int;
        assert(s.subrange(k, s.len() as int) =~= enc_items::<T>(tail) + rest);
        assert forall|i: int| 0 <= i < tail.len() implies #[trigger] T::fits(tail[i]) by {
            assert(T::fits(xs[i + 1]));
        }
        lemma_items_round_trip::<T>(tail, rest);
        assert(seq![xs[0]] + tail =~= xs);
    } else {
        assert(xs =~= Seq::<T::V>::empty());
    }
}

pub proof fn lemma_list_round_trip<T: Codec>(xs: Seq<T::V>, rest: Seq<u8>)
    requires
        list_fits::<T>(xs),
    ensures
        parse_list::<T>(enc_list::<T>(xs) + rest) == Some((xs, enc_list::<T>(xs).len() as int)),
{
    let s = enc_list::<T>(xs) + rest;
    assert(s =~= enc_u64(xs.len() as u64) + (enc_items::<T>(xs) + rest));
    lemma_u64_round_trip(xs.len() as u64, enc_items::<T>(xs) + rest);
    assert(s.subrange(8, s.len() as int) =~= enc_items::<T>(xs) + rest);
    lemma_items_round_trip::<T>(xs, rest);
}

/// Appends the counted encoding of `xs` to `out`.
pub fn write_list<T: Codec>(out: &mut Vec<u8>, xs: &Vec<T>)
    ensures
        final(out)@ == old(out)@ + enc_list::<T>(views(xs@)),
        list_fits::<T>(views(xs@)),
{
    assert(usize::MAX <= u64::MAX);
    write_u64(out, xs.len() as u64);
    let ghost mid = out@;
    let mut i: usize = 0;
    while i < xs.len()
        invariant
            0 <= i <= xs.len(),
            out@ == mid + enc_items::<T>(views(xs@.subrange(0, i as int))),
            forall|j: int| 0 <= j < i ==> #[trigger] T::fits(views(xs@)[j]),
        decreases xs.len() - i,
    {
        xs[i].write(out);
        proof {
            let a = views(xs@.subrange(0, i as int));
            let b = views(xs@.subrange(0, i + 1));
            assert(b.drop_last() =~= a);
        }
        i = i + 1;
    }
    assert(xs@.subrange(0, xs.len() as int) =~= xs@);
    assert(final(out)@ =~= old(out)@ + enc_list::<T>(views(xs@)));
}

/// Reads a counted list at `pos`.
pub fn read_list<T: Codec>(data: &Vec<u8>, pos: usize) -> (r: Option<(Vec<T>, usize)>)
    requires
        pos <= data@.len(),
    ensures
        match r {
            None => parse_list::<T>(data@.subrange(pos as int, data@.len() as int)) is None,
            Some((xs, next)) => pos <= next <= data@.len() && parse_list::<T>(
                data@.subrange(pos as int, data@.len() as int),
            ) == Some((views(xs@), next - pos)),
        },
{
    let (n, start) = match read_u64(data, pos) {
        Some(p) => p,
        None => return None,
    };
    let ghost len = data@.len() as int;
    let ghost whole = data@.subrange(pos as int, len);
    let ghost full = data@.subrange(start as int, len);
    assert(whole.subrange(8, whole.len() as int) =~= full);
    let mut xs: Vec<T> = Vec::new();
    let mut p: usize = start;
    let mut i: u64 = 0;
    while i < n
        invariant
            start <= p <= data@.len(),
            len == data@.len(),
            full == data@.subrange(start as int, len),
            whole == data@.subrange(pos as int, len),
            parse_u64(whole) == Some((n, 8int)),
            whole.subrange(8, whole.len() as int) == full,
            i <= n,
            parse_items::<T>(full, n as nat) == match parse_items::<T>(
                data@.subrange(p as int, len),
                (n - i) as nat,
            ) {
                Some((ys, m)) => Some((views(xs@) + ys, (p - start) + m)),
                None => None,
            },
        decreases n - i,
    {
        let ghost cur = data@.subrange(p as int, len);
        let (x, q) = match T::read(data, p) {
            Some(v) => v,
            None => {
                assert(parse_items::<T>(cur, (n - i) as nat) is None);
                assert(parse_items::<T>(full, n as nat) is None);
                return None;
            },
        };
        proof {
            let k = q - p;
            assert(cur.subrange(k, cur.len() as int) =~= data@.subrange(q as int, len));
            let ghost old_views = views(xs@);
            assert(views(xs@.push(x)) =~= old_views.push(x@));
            match parse_items::<T>(data@.subrange(q as int, len), (n - i - 1) as nat) {
                Some((ys, m)) => {
                    assert(old_views + (seq![x@] + ys) =~= old_views.push(x@) + ys);
                },
                None => {},
            }
        }
        xs.push(x);
        p = q;
        i = i + 1;
    }
    assert(parse_items::<T>(data@.subrange(p as int, len), 0) == Some((Seq::<T::V>::empty(), 0int)));
    assert(views(xs@) + Seq::<T::V>::empty() =~= views(xs@));
    Some((xs, p))
}

/// Dropping a prefix of a suffix is taking a later suffix.
pub proof fn lemma_suffix(s: Seq<u8>, a: int, b: int)
    requires
        0 <= a <= b <= s.len(),
    ensures
        s.subrange(a, s.len() as int).subrange(b - a, s.len() - a) == s.subrange(b, s.len() as int),
{
    assert(s.subrange(a, s.len() as int).subrange(b - a, s.len() - a) =~= s.subrange(
        b,
        s.len() as int,
    ));
}

/// What follows a prefix `a` in `a + b`.
pub proof fn lemma_after(a: Seq<u8>, b: Seq<u8>)
    ensures
        (a + b).subrange(a.len() as int, (a + b).len() as int) == b,
{
    assert((a + b).subrange(a.len() as int, (a + b).len() as int) =~= b);
}

/// Encoding of an optional byte string: a flag byte, then the bytes when present.
pub open spec fn enc_opt_bytes(o: Option<Seq<u8>>) -> Seq<u8> {
    match o {
        Some(b) => enc_u8(1) + enc_bytes(b),
        None => enc_u8(0),
    }
}

/// Reads an optional byte string from the front of `s`.
pub open spec fn parse_opt_bytes(s: Seq<u8>) -> Option<(Option<Seq<u8>>, int)> {
    match parse_u8(s) {
        Some((f, k)) => if f == 0 {
            Some((None, k))
        } else if f == 1 {
            match parse_bytes(s.subrange(k, s.len() as int)) {
                Some((b, m)) => Some((Some(b), k + m)),
                None => None,
            }
        } else {
            None
        },
        None => None,
    }
}

pub proof fn lemma_opt_bytes_round_trip(o: Option<Seq<u8>>, rest: Seq<u8>)
    requires
        o matches Some(b) ==> b.len() <= u64::MAX,
    ensures
        parse_opt_bytes(enc_opt_bytes(o) + rest) == Some((o, enc_opt_bytes(o).len() as int)),
{
    if let Some(b) = o {
        let s = enc_opt_bytes(o) + rest;
        assert(s =~= enc_u8(1) + (enc_bytes(b) + rest));
        lemma_after(enc_u8(1), enc_bytes(b) + rest);
        lemma_bytes_round_trip(b, rest);
    }
}

/// Appends the encoding of an optional byte string.
pub fn write_opt_bytes(out: &mut Vec<u8>, o: &Option<Vec<u8>>)
    ensures
        final(out)@ == old(out)@ + enc_opt_bytes(opt_view(*o)),
        o matches Some(b) ==> b@.len() <= u64::MAX,
{
    match o {
        Some(b) => {
            write_u8(out, 1);
            write_bytes(out, b);
            assert(final(out)@ =~= old(out)@ + enc_opt_bytes(opt_view(*o)));
        },
        None => {
            write_u8(out, 0);
        },
    }
}

/// The view of an optional byte string.
pub open spec fn opt_view(o: Option<Vec<u8>>) -> Option<Seq<u8>> {
    match o {
        Some(b) => Some(b@),
        None => None,
    }
}

/// Reads an optional byte string at `pos`.
pub fn read_opt_bytes(data: &Vec<u8>, pos: usize) -> (r: Option<(Option<Vec<u8>>, usize)>)
    requires
        pos <= data@.len(),
    ensures
        match r {
            None => parse_opt_bytes(data@.subrange(pos as int, data@.len() as int)) is None,
            Some((o, next)) => pos <= next <= data@.len() && parse_opt_bytes(
                data@.subrange(pos as int, data@.len() as int),
            ) == Some((opt_view(o), next - pos)),
        },
{
    let (f, p1) = match read_u8(data, pos) {
        Some(v) => v,
        None => return None,
    };
    proof {
        lemma_suffix(data@, pos as int, p1 as int);
    }
    if f == 0 {
        Some((None, p1))
    } else if f == 1 {
        match read_bytes(data, p1) {
            Some((b, p2)) => Some((Some(b), p2)),
            None => None,
        }
    } else {
        None
    }
}

/// A copy of a byte string.
pub fn copy_bytes(b: &Vec<u8>) -> (r: Vec<u8>)
    ensures
        r@ == b@,
{
    let mut r: Vec<u8> = Vec::new();
    let mut i: usize = 0;
    while i < b.len()
        invariant
            0 <= i <= b.len(),
            r@ == b@.subrange(0, i as int),
        decreases b.len() - i,
    {
        r.push(b[i]);
        i = i + 1;
        assert(r@ =~= b@.subrange(0, i as int));
    }
    assert(b@.subrange(0, b.len() as int) =~= b@);
    r
}

} // verus!
