//! Byte strings: their order, the least one above a prefix, and row ids as
//! eight bytes.
use crate::error::{around, refused, text_around, Error, Fault};
use crate::ordered::{Order, Ordered, Record};
use vstd::prelude::*;

verus! {

/// Byte order: the first difference decides, and a proper prefix comes first.
pub open spec fn bytes_below(a: Seq<u8>, b: Seq<u8>) -> bool
    decreases a.len(),
{
    if b.len() == 0 {
        false
    } else if a.len() == 0 {
        true
    } else {
        a[0] < b[0] || (a[0] == b[0] && bytes_below(a.skip(1), b.skip(1)))
    }
}

pub(crate) proof fn bytes_below_strict(a: Seq<u8>, b: Seq<u8>)
    ensures
        !(bytes_below(a, b) && bytes_below(b, a)),
    decreases a.len(),
{
    if a.len() > 0 && b.len() > 0 {
        bytes_below_strict(a.skip(1), b.skip(1));
    }
}

proof fn bytes_below_chains(a: Seq<u8>, b: Seq<u8>, c: Seq<u8>)
    requires
        bytes_below(a, b),
        bytes_below(b, c),
    ensures
        bytes_below(a, c),
    decreases a.len(),
{
    if a.len() > 0 && a[0] == b[0] && b[0] == c[0] {
        bytes_below_chains(a.skip(1), b.skip(1), c.skip(1));
    }
}

pub(crate) proof fn bytes_below_total(a: Seq<u8>, b: Seq<u8>)
    ensures
        a == b || bytes_below(a, b) || bytes_below(b, a),
    decreases a.len(),
{
    if a.len() > 0 && b.len() > 0 {
        bytes_below_total(a.skip(1), b.skip(1));
        if a[0] == b[0] && a.skip(1) == b.skip(1) {
            assert(a =~= seq![a[0]] + a.skip(1));
            assert(b =~= seq![b[0]] + b.skip(1));
        }
    } else if a.len() == 0 && b.len() == 0 {
        assert(a =~= b);
    }
}

/// A common prefix does not decide the order.
proof fn bytes_below_past_prefix(a: Seq<u8>, b: Seq<u8>, n: int)
    requires
        0 <= n <= a.len(),
        n <= b.len(),
        a.take(n) == b.take(n),
    ensures
        bytes_below(a, b) == bytes_below(a.skip(n), b.skip(n)),
    decreases n,
{
    if n == 0 {
        assert(a.skip(0) =~= a);
        assert(b.skip(0) =~= b);
    } else {
        assert(a.take(n)[0] == a[0] && b.take(n)[0] == b[0]);
        assert(a.skip(1).take(n - 1) =~= a.take(n).skip(1));
        assert(b.skip(1).take(n - 1) =~= b.take(n).skip(1));
        bytes_below_past_prefix(a.skip(1), b.skip(1), n - 1);
        assert(a.skip(1).skip(n - 1) =~= a.skip(n));
        assert(b.skip(1).skip(n - 1) =~= b.skip(n));
    }
}

impl Ordered for Vec<u8> {
    open spec fn below(a: Seq<u8>, b: Seq<u8>) -> bool {
        bytes_below(a, b)
    }

    proof fn below_is_strict(a: Seq<u8>, b: Seq<u8>) {
        bytes_below_strict(a, b);
        bytes_below_strict(a, a);
    }

    proof fn below_chains(a: Seq<u8>, b: Seq<u8>, c: Seq<u8>) {
        bytes_below_chains(a, b, c);
    }

    proof fn below_is_total(a: Seq<u8>, b: Seq<u8>) {
        bytes_below_total(a, b);
    }

    fn order(&self, other: &Self) -> (o: Order) {
        let ghost a = self.deep_view();
        let ghost b = other.deep_view();
        let mut i: usize = 0;
        while i < self.len() && i < other.len()
            invariant
                i <= self@.len(),
                i <= other@.len(),
                a == self.deep_view(),
                b == other.deep_view(),
                a.take(i as int) =~= b.take(i as int),
            decreases self.len() - i,
        {
            proof {
                assert(a[i as int] == self@[i as int] && b[i as int] == other@[i as int]);
                bytes_below_past_prefix(a, b, i as int);
                bytes_below_past_prefix(b, a, i as int);
            }
            if self[i] < other[i] {
                assert(bytes_below(a.skip(i as int), b.skip(i as int)));
                return Order::Below;
            }
            if self[i] > other[i] {
                assert(bytes_below(b.skip(i as int), a.skip(i as int)));
                return Order::Above;
            }
            assert(a.take(i + 1) =~= a.take(i as int).push(a[i as int]));
            assert(b.take(i + 1) =~= b.take(i as int).push(b[i as int]));
            i = i + 1;
        }
        proof {
            bytes_below_past_prefix(a, b, i as int);
            bytes_below_past_prefix(b, a, i as int);
        }
        if i < self.len() {
            Order::Above
        } else if i < other.len() {
            Order::Below
        } else {
            assert(a =~= a.take(i as int) && b =~= b.take(i as int));
            Order::Same
        }
    }
}

// ---------------------------------------------------------------------------
// Prefixes
// ---------------------------------------------------------------------------

/// Whether a byte string begins with another.
pub open spec fn begins_with(s: Seq<u8>, prefix: Seq<u8>) -> bool {
    prefix.len() <= s.len() && s.take(prefix.len() as int) == prefix
}

/// Whether a byte string ends the extensions of a prefix: just those that are
/// below the prefix or begin with it are below the byte string.
pub open spec fn ends_extensions(above: Seq<u8>, prefix: Seq<u8>) -> bool {
    forall|s: Seq<u8>| #[trigger]
        bytes_below(s, above) <==> bytes_below(s, prefix) || begins_with(s, prefix)
}

/// Whether every byte is the largest one.
pub open spec fn all_top(s: Seq<u8>) -> bool {
    forall|i: int| 0 <= i < s.len() ==> #[trigger] s[i] == 255u8
}

/// Raising the last byte of a prefix ends its extensions.
proof fn raised_ends_extensions(body: Seq<u8>, last: u8, tail: Seq<u8>, s: Seq<u8>)
    requires
        last < 255,
        all_top(tail),
    ensures
        bytes_below(s, body.push((last + 1) as u8)) <==> bytes_below(s, body.push(last) + tail)
            || begins_with(s, body.push(last) + tail),
    decreases body.len(),
{
    let up = body.push((last + 1) as u8);
    let full = body.push(last) + tail;
    assert(full.len() == body.len() + 1 + tail.len());
    if s.len() == 0 {
        assert(up.len() > 0 && full.len() > 0);
    } else if body.len() > 0 {
        let rest = body.skip(1);
        raised_ends_extensions(rest, last, tail, s.skip(1));
        assert(up[0] == body[0]);
        assert(full[0] == body[0]);
        assert(up.skip(1) =~= rest.push((last + 1) as u8));
        assert(full.skip(1) =~= rest.push(last) + tail);
        begins_past_first(s, full);
    } else {
        assert(up[0] == (last + 1) as u8);
        assert(full[0] == last);
        assert(up.skip(1) =~= Seq::<u8>::empty());
        assert(!bytes_below(s.skip(1), Seq::<u8>::empty()));
        assert(full.skip(1) =~= tail);
        begins_past_first(s, full);
        if s[0] == last {
            at_top(s.skip(1), tail);
        }
    }
}

/// Whether a byte string begins with another is decided byte by byte.
proof fn begins_past_first(s: Seq<u8>, prefix: Seq<u8>)
    requires
        s.len() > 0,
        prefix.len() > 0,
    ensures
        begins_with(s, prefix) == (s[0] == prefix[0] && begins_with(s.skip(1), prefix.skip(1))),
{
    let n = prefix.len() as int;
    if begins_with(s, prefix) {
        assert(s.take(n)[0] == s[0]);
        assert(s.skip(1).take(n - 1) =~= s.take(n).skip(1));
    }
    if s[0] == prefix[0] && begins_with(s.skip(1), prefix.skip(1)) {
        assert forall|i: int| 0 <= i < n implies s.take(n)[i] == prefix[i] by {
            if i > 0 {
                assert(s.skip(1).take(n - 1)[i - 1] == s[i]);
                assert(prefix.skip(1)[i - 1] == prefix[i]);
            }
        }
        assert(s.take(n) =~= prefix);
    }
}

/// Every byte string is below one of largest bytes, or begins with it.
pub(crate) proof fn at_top(s: Seq<u8>, top: Seq<u8>)
    requires
        all_top(top),
    ensures
        bytes_below(s, top) || begins_with(s, top),
    decreases top.len(),
{
    if top.len() == 0 {
        assert(s.take(0) =~= top);
    } else if s.len() > 0 {
        assert(top[0] == 255u8);
        assert forall|i: int| 0 <= i < top.skip(1).len() implies #[trigger] top.skip(1)[i]
            == 255u8 by {
            assert(top[i + 1] == 255u8);
        }
        at_top(s.skip(1), top.skip(1));
        begins_past_first(s, top);
    }
}

/// The least byte string above every one that begins with a prefix. There is
/// none where every byte of the prefix is the largest one.
pub fn increment_prefix(prefix: &Vec<u8>) -> (r: Option<Vec<u8>>)
    ensures
        match r {
            Some(above) => ends_extensions(above.deep_view(), prefix.deep_view()),
            None => all_top(prefix.deep_view()),
        },
        r is None <==> all_top(prefix.deep_view()),
{
    let ghost p = prefix.deep_view();
    let mut bytes = prefix.dup();
    assert(p =~= bytes.deep_view() + Seq::<u8>::empty());
    assert(p.skip(p.len() as int) =~= Seq::<u8>::empty());
    while bytes.len() > 0
        invariant
            p == prefix.deep_view(),
            bytes@.len() <= p.len(),
            bytes.deep_view() == p.take(bytes@.len() as int),
            all_top(p.skip(bytes@.len() as int)),
        decreases bytes.len(),
    {
        let n: usize = bytes.len();
        let last: u8 = bytes[n - 1];
        let ghost body = p.take(n - 1);
        let ghost tail = p.skip(n as int);
        proof {
            assert(bytes.deep_view()[n - 1] == last);
            assert(p[n - 1] == last);
            assert(p =~= body.push(last) + tail);
        }
        if last != 255 {
            bytes.set(n - 1, last + 1);
            proof {
                let up = bytes.deep_view();
                assert(up =~= body.push((last + 1) as u8));
                assert forall|s: Seq<u8>| #[trigger]
                    bytes_below(s, up) <==> bytes_below(s, p) || begins_with(s, p) by {
                    raised_ends_extensions(body, last, tail, s);
                }
                assert(!all_top(p));
            }
            return Some(bytes);
        }
        let _ = bytes.pop();
        proof {
            assert(bytes.deep_view() =~= p.take(n - 1));
            assert forall|i: int| 0 <= i < p.skip(n - 1).len() implies #[trigger] p.skip(n - 1)[i]
                == 255u8 by {
                if i > 0 {
                    assert(tail[i - 1] == 255u8);
                }
            }
        }
    }
    assert(p.skip(0) =~= p);
    None
}

/// Where a prefix has no byte string above its extensions, every byte string
/// that is not below the prefix begins with it.
pub proof fn top_prefix_ends_all(prefix: Seq<u8>, s: Seq<u8>)
    requires
        all_top(prefix),
        !bytes_below(s, prefix),
    ensures
        begins_with(s, prefix),
{
    at_top(s, prefix);
}

// ---------------------------------------------------------------------------
// Row ids
// ---------------------------------------------------------------------------

/// The number that bytes spell, the most significant first.
pub open spec fn spelled(bytes: Seq<u8>) -> nat
    decreases bytes.len(),
{
    if bytes.len() == 0 {
        0
    } else {
        spelled(bytes.drop_last()) * 256 + bytes.last() as nat
    }
}

/// A number in so many bytes, the most significant first.
pub open spec fn spelling(n: nat, width: nat) -> Seq<u8>
    decreases width,
{
    if width == 0 {
        Seq::empty()
    } else {
        spelling(n / 256, (width - 1) as nat).push((n % 256) as u8)
    }
}

/// How many numbers fit in so many bytes.
pub open spec fn capacity(width: nat) -> nat
    decreases width,
{
    if width == 0 {
        1
    } else {
        256 * capacity((width - 1) as nat)
    }
}

proof fn spelled_fits(bytes: Seq<u8>)
    ensures
        spelled(bytes) < capacity(bytes.len()),
    decreases bytes.len(),
{
    if bytes.len() > 0 {
        spelled_fits(bytes.drop_last());
    }
}

/// A number that fits is what its bytes spell.
pub proof fn spelling_reads_back(n: nat, width: nat)
    requires
        n < capacity(width),
    ensures
        spelling(n, width).len() == width,
        spelled(spelling(n, width)) == n,
    decreases width,
{
    if width > 0 {
        spelling_reads_back(n / 256, (width - 1) as nat);
        let front = spelling(n / 256, (width - 1) as nat);
        assert(spelling(n, width).drop_last() =~= front);
    }
}

/// A row id as the value of an index entry.
pub open spec fn row_id_bytes(row_id: u64) -> Seq<u8> {
    spelling(row_id as nat, 8)
}

/// A row id that is written as the value of an index entry is read back.
pub proof fn row_id_reads_back(row_id: u64)
    ensures
        row_id_bytes(row_id).len() == 8,
        spelled(row_id_bytes(row_id)) == row_id,
{
    assert(capacity(8) == 0x1_0000_0000_0000_0000) by {
        reveal_with_fuel(capacity, 9);
    }
    spelling_reads_back(row_id as nat, 8);
}

fn push_spelling(out: &mut Vec<u8>, n: u64, width: usize)
    ensures
        final(out).deep_view() == old(out).deep_view() + spelling(n as nat, width as nat),
    decreases width,
{
    if width > 0 {
        push_spelling(out, n / 256, width - 1);
        let ghost was = out.deep_view();
        let b: u8 = (n % 256) as u8;
        out.push(b);
        assert(out.deep_view() =~= was.push(b));
    }
    assert(out.deep_view() =~= old(out).deep_view() + spelling(n as nat, width as nat));
}

/// A row id, big-endian.
pub fn encode_row_id(row_id: u64) -> (bytes: Vec<u8>)
    ensures
        bytes.deep_view() == row_id_bytes(row_id),
{
    let mut bytes: Vec<u8> = Vec::new();
    push_spelling(&mut bytes, row_id, 8);
    assert(bytes.deep_view() =~= row_id_bytes(row_id));
    bytes
}

/// Why the value of an index entry is refused.
pub open spec fn row_id_refusal(bytes: Seq<u8>) -> Option<Fault> {
    if bytes.len() != 8 {
        Some(
            Fault::Corruption(
                around("index entry value is "@, bytes.len() as u64, " bytes, expected 8"@),
            ),
        )
    } else {
        None
    }
}

/// Reads a row id from the value of an index entry.
pub fn decode_row_id(bytes: &Vec<u8>) -> (r: Result<u64, Error>)
    ensures
        match row_id_refusal(bytes.deep_view()) {
            Some(f) => refused(r, f),
            None => r is Ok && r->Ok_0 == spelled(bytes.deep_view()),
        },
{
    if bytes.len() != 8 {
        return Err(
            Error::Corruption(
                text_around("index entry value is ", bytes.len() as u64, " bytes, expected 8"),
            ),
        );
    }
    let ghost q = bytes.deep_view();
    let mut n: u64 = 0;
    let mut i: usize = 0;
    assert(capacity(8) == 0x1_0000_0000_0000_0000) by {
        reveal_with_fuel(capacity, 9);
    }
    assert(q.take(0) =~= Seq::<u8>::empty());
    while i < 8
        invariant
            i <= 8,
            bytes@.len() == 8,
            q == bytes.deep_view(),
            capacity(8) == 0x1_0000_0000_0000_0000,
            n == spelled(q.take(i as int)),
        decreases 8 - i,
    {
        proof {
            let next = q.take(i + 1);
            assert(next.drop_last() =~= q.take(i as int));
            assert(next.last() == bytes@[i as int]);
            spelled_fits(next);
            capacity_grows((i + 1) as nat, 8);
        }
        n = n * 256 + bytes[i] as u64;
        i = i + 1;
    }
    assert(q.take(8) =~= q);
    Ok(n)
}

proof fn capacity_grows(a: nat, b: nat)
    requires
        a <= b,
    ensures
        capacity(a) <= capacity(b),
    decreases b,
{
    if a < b {
        capacity_grows(a, (b - 1) as nat);
    }
}

} // verus!
