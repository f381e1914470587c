//! The wire grammar of a commit's change list: comma-joined `kind:payload`
//! entries, where names are quoted like SQL identifiers and identifiers of
//! catalog objects are decimal numerals.
use crate::text::{chars_of, string_of};
use vstd::prelude::*;

verus! {

// ---------------------------------------------------------------------------
// Quoted names
// ---------------------------------------------------------------------------

/// `name` with every double quote doubled.
pub open spec fn doubled(name: Seq<char>) -> Seq<char>
    decreases name.len(),
{
    if name.len() == 0 {
        Seq::empty()
    } else if name.last() == '"' {
        doubled(name.drop_last()).push('"').push('"')
    } else {
        doubled(name.drop_last()).push(name.last())
    }
}

/// `name` as a quoted identifier.
pub open spec fn quoted(name: Seq<char>) -> Seq<char> {
    seq!['"'] + doubled(name) + seq!['"']
}

/// Reads on behind an opening quote: the name up to the closing quote, with
/// doubled quotes undone, and what follows it.
pub open spec fn unquoted(t: Seq<char>) -> Option<(Seq<char>, Seq<char>)>
    decreases t.len(),
{
    if t.len() == 0 {
        None
    } else if t[0] != '"' {
        behind(seq![t[0]], unquoted(t.skip(1)))
    } else if t.len() > 1 && t[1] == '"' {
        behind(seq!['"'], unquoted(t.skip(2)))
    } else {
        Some((Seq::empty(), t.skip(1)))
    }
}

/// A reading whose name has `head` in front.
pub open spec fn behind(
    head: Seq<char>,
    read: Option<(Seq<char>, Seq<char>)>,
) -> Option<(Seq<char>, Seq<char>)> {
    match read {
        Some((name, rest)) => Some((head + name, rest)),
        None => None,
    }
}

/// Reads one quoted identifier at the start of `t`.
pub open spec fn quoted_prefix(t: Seq<char>) -> Option<(Seq<char>, Seq<char>)> {
    if t.len() > 0 && t[0] == '"' {
        unquoted(t.skip(1))
    } else {
        None
    }
}

/// The name that a payload of exactly one quoted identifier carries.
pub open spec fn name_payload(t: Seq<char>) -> Option<Seq<char>> {
    match quoted_prefix(t) {
        Some((name, rest)) => if rest.len() == 0 {
            Some(name)
        } else {
            None
        },
        None => None,
    }
}

/// The two names that a payload of two dot-joined quoted identifiers carries.
pub open spec fn pair_payload(t: Seq<char>) -> Option<(Seq<char>, Seq<char>)> {
    match quoted_prefix(t) {
        Some((first, rest)) => if rest.len() > 0 && rest[0] == '.' {
            match name_payload(rest.skip(1)) {
                Some(second) => Some((first, second)),
                None => None,
            }
        } else {
            None
        },
        None => None,
    }
}

proof fn behind_behind(a: Seq<char>, b: Seq<char>, r: Option<(Seq<char>, Seq<char>)>)
    ensures
        behind(a, behind(b, r)) == behind(a + b, r),
        behind(Seq::empty(), r) == r,
{
    if let Some((name, rest)) = r {
        assert(a + (b + name) =~= (a + b) + name);
        assert(Seq::<char>::empty() + name =~= name);
    }
}

/// Reading a doubled name is reading the name itself and going on.
proof fn unquoted_doubled(name: Seq<char>, t: Seq<char>)
    ensures
        unquoted(doubled(name) + t) == behind(name, unquoted(t)),
    decreases name.len(),
{
    if name.len() == 0 {
        assert(doubled(name) + t =~= t);
        behind_behind(Seq::empty(), Seq::empty(), unquoted(t));
        assert(name =~= Seq::<char>::empty());
    } else {
        let c = name.last();
        let front = name.drop_last();
        let tail = if c == '"' { seq!['"', '"'] + t } else { seq![c] + t };
        assert(doubled(name) + t =~= doubled(front) + tail);
        unquoted_doubled(front, tail);
        if c == '"' {
            assert(tail.skip(2) =~= t);
        } else {
            assert(tail.skip(1) =~= t);
        }
        assert(unquoted(tail) == behind(seq![c], unquoted(t)));
        behind_behind(front, seq![c], unquoted(t));
        assert(front + seq![c] =~= name);
    }
}

/// A quoted name reads back as the name, whatever follows it, unless that
/// starts with another quote.
pub proof fn quoted_reads_back(name: Seq<char>, rest: Seq<char>)
    requires
        rest.len() > 0 ==> rest[0] != '"',
    ensures
        quoted_prefix(quoted(name) + rest) == Some((name, rest)),
{
    let t = quoted(name) + rest;
    assert(t.skip(1) =~= doubled(name) + (seq!['"'] + rest));
    unquoted_doubled(name, seq!['"'] + rest);
    assert((seq!['"'] + rest).skip(1) =~= rest);
    assert(name + Seq::<char>::empty() =~= name);
}

/// A payload of one quoted name carries that name.
pub proof fn name_payload_reads_back(name: Seq<char>)
    ensures
        name_payload(quoted(name)) == Some(name),
{
    quoted_reads_back(name, Seq::empty());
    assert(quoted(name) + Seq::<char>::empty() =~= quoted(name));
}

/// A payload of two quoted names carries those names.
pub proof fn pair_payload_reads_back(first: Seq<char>, second: Seq<char>)
    ensures
        pair_payload(quoted(first) + seq!['.'] + quoted(second)) == Some((first, second)),
{
    let rest = seq!['.'] + quoted(second);
    quoted_reads_back(first, rest);
    assert(quoted(first) + seq!['.'] + quoted(second) =~= quoted(first) + rest);
    assert(rest.skip(1) =~= quoted(second));
    name_payload_reads_back(second);
}

/// Wraps `name` in double quotes, doubling any embedded quote.
pub fn quote_ident(name: &str) -> (out: String)
    ensures
        out@ == quoted(name@),
{
    let chars = chars_of(name);
    let mut out = String::new();
    out.push('"');
    let mut i: usize = 0;
    assert(chars@.take(0) =~= Seq::<char>::empty());
    assert(out@ =~= seq!['"'] + doubled(chars@.take(0)));
    while i < chars.len()
        invariant
            i <= chars@.len(),
            chars@ == name@,
            out@ == seq!['"'] + doubled(chars@.take(i as int)),
        decreases chars.len() - i,
    {
        let c: char = chars[i];
        let ghost next = chars@.take(i + 1);
        assert(next.drop_last() =~= chars@.take(i as int));
        assert(next.last() == c);
        if c == '"' {
            out.push('"');
        }
        out.push(c);
        assert(out@ =~= seq!['"'] + doubled(next));
        i = i + 1;
    }
    assert(chars@.take(chars@.len() as int) =~= name@);
    out.push('"');
    assert(out@ =~= quoted(name@));
    out
}

/// Reads one quoted identifier at position `from`; returns the name and the
/// position behind the closing quote, or `None` if there is no complete one.
pub fn parse_quoted(chars: &Vec<char>, from: usize) -> (read: Option<(String, usize)>)
    requires
        from <= chars@.len(),
    ensures
        match read {
            Some((name, at)) => at <= chars@.len() && quoted_prefix(chars@.skip(from as int))
                == Some((name@, chars@.skip(at as int))),
            None => quoted_prefix(chars@.skip(from as int)) is None,
        },
{
    let ghost all = chars@.skip(from as int);
    if from == chars.len() || chars[from] != '"' {
        return None;
    }
    let mut name = String::new();
    let mut i: usize = from + 1;
    proof {
        assert(all.skip(1) =~= chars@.skip(from + 1));
        behind_behind(Seq::empty(), Seq::empty(), unquoted(all.skip(1)));
    }
    while i < chars.len()
        invariant
            from < i <= chars@.len(),
            quoted_prefix(chars@.skip(from as int)) == behind(name@, unquoted(chars@.skip(i as int))),
        decreases chars.len() - i,
    {
        let c: char = chars[i];
        let ghost t = chars@.skip(i as int);
        let ghost before = name@;
        assert(t[0] == c);
        if c != '"' {
            name.push(c);
            proof {
                assert(t.skip(1) =~= chars@.skip(i + 1));
                behind_behind(before, seq![c], unquoted(t.skip(1)));
                assert(before + seq![c] =~= name@);
            }
            i = i + 1;
        } else if i + 1 < chars.len() && chars[i + 1] == '"' {
            assert(t[1] == '"');
            name.push('"');
            proof {
                assert(t.skip(2) =~= chars@.skip(i + 2));
                behind_behind(before, seq!['"'], unquoted(t.skip(2)));
                assert(before + seq!['"'] =~= name@);
            }
            i = i + 2;
        } else {
            proof {
                if i + 1 < chars@.len() {
                    assert(t[1] == chars@[i + 1]);
                }
                assert(t.skip(1) =~= chars@.skip(i + 1));
                assert(before + Seq::<char>::empty() =~= before);
            }
            return Some((name, i + 1));
        }
    }
    None
}

/// Reads the characters from `from` on as a single quoted name.
pub fn parse_created_schema_payload(chars: &Vec<char>, from: usize) -> (name: Option<String>)
    requires
        from <= chars@.len(),
    ensures
        name.deep_view() == name_payload(chars@.skip(from as int)),
{
    match parse_quoted(chars, from) {
        Some((name, at)) => if at == chars.len() {
            Some(name)
        } else {
            None
        },
        None => None,
    }
}

/// Reads the characters from `from` on as two quoted names joined by a dot.
pub fn parse_created_table_payload(chars: &Vec<char>, from: usize) -> (pair: Option<(String, String)>)
    requires
        from <= chars@.len(),
    ensures
        pair.deep_view() == pair_payload(chars@.skip(from as int)),
{
    match parse_quoted(chars, from) {
        Some((first, at)) => {
            let ghost rest = chars@.skip(at as int);
            if at < chars.len() && chars[at] == '.' {
                assert(rest.skip(1) =~= chars@.skip(at + 1));
                match parse_created_schema_payload(chars, at + 1) {
                    Some(second) => Some((first, second)),
                    None => None,
                }
            } else {
                None
            }
        },
        None => None,
    }
}

// ---------------------------------------------------------------------------
// Entries
// ---------------------------------------------------------------------------

/// The position of the first comma of `t` outside quotes, or the end; every
/// double quote toggles whether a position is inside quotes.
pub open spec fn top_comma(t: Seq<char>, inside: bool) -> nat
    decreases t.len(),
{
    if t.len() == 0 || (t[0] == ',' && !inside) {
        0
    } else {
        1 + top_comma(t.skip(1), inside != (t[0] == '"'))
    }
}

/// The non-empty stretches between the commas outside quotes.
pub open spec fn entries_of(t: Seq<char>) -> Seq<Seq<char>>
    decreases t.len(),
{
    let c = top_comma(t, false) as int;
    let head = if c > 0 {
        seq![t.take(c)]
    } else {
        Seq::empty()
    };
    if 0 <= c < t.len() {
        head + entries_of(t.skip(c + 1))
    } else {
        head
    }
}

/// The entries joined by commas.
pub open spec fn joined(entries: Seq<Seq<char>>) -> Seq<char>
    decreases entries.len(),
{
    if entries.len() == 0 {
        Seq::empty()
    } else if entries.len() == 1 {
        entries[0]
    } else {
        joined(entries.drop_last()) + seq![','] + entries.last()
    }
}

/// Scanning `a` outside (or inside) quotes meets no separating comma and ends
/// outside (or inside) quotes.
pub open spec fn passes(a: Seq<char>, inside: bool, after: bool) -> bool {
    forall|t: Seq<char>| #[trigger]
        top_comma(a + t, inside) == a.len() + top_comma(t, after)
}

/// An entry that a comma ends, and no comma cuts.
pub open spec fn whole(entry: Seq<char>) -> bool {
    entry.len() > 0 && passes(entry, false, false)
}

pub proof fn passes_both(a: Seq<char>, b: Seq<char>, p: bool, q: bool, r: bool)
    requires
        passes(a, p, q),
        passes(b, q, r),
    ensures
        passes(a + b, p, r),
{
    assert forall|t: Seq<char>| #[trigger]
        top_comma((a + b) + t, p) == (a + b).len() + top_comma(t, r) by {
        assert((a + b) + t =~= a + (b + t));
        assert(top_comma(b + t, q) == b.len() + top_comma(t, r));
    }
}

/// Text without quotes or commas is scanned in place.
pub proof fn passes_plain(a: Seq<char>, inside: bool)
    requires
        forall|i: int| 0 <= i < a.len() ==> a[i] != ',' && a[i] != '"',
    ensures
        passes(a, inside, inside),
    decreases a.len(),
{
    if a.len() == 0 {
        assert forall|t: Seq<char>| #[trigger]
            top_comma(a + t, inside) == a.len() + top_comma(t, inside) by {
            assert(a + t =~= t);
        }
    } else {
        passes_plain(a.skip(1), inside);
        assert forall|t: Seq<char>| #[trigger]
            top_comma(a + t, inside) == a.len() + top_comma(t, inside) by {
            assert((a + t).skip(1) =~= a.skip(1) + t);
            assert(top_comma(a.skip(1) + t, inside) == a.len() - 1 + top_comma(t, inside));
        }
    }
}

/// One quote toggles.
proof fn passes_quote(inside: bool)
    ensures
        passes(seq!['"'], inside, !inside),
{
    assert forall|t: Seq<char>| #[trigger]
        top_comma(seq!['"'] + t, inside) == 1 + top_comma(t, !inside) by {
        assert((seq!['"'] + t).skip(1) =~= t);
    }
}

proof fn passes_inside(c: char)
    requires
        c != '"',
    ensures
        passes(seq![c], true, true),
{
    assert forall|t: Seq<char>| #[trigger] top_comma(seq![c] + t, true) == 1 + top_comma(t, true) by {
        assert((seq![c] + t).skip(1) =~= t);
    }
}

proof fn passes_doubled(name: Seq<char>)
    ensures
        passes(doubled(name), true, true),
    decreases name.len(),
{
    if name.len() == 0 {
        passes_plain(Seq::empty(), true);
    } else {
        let front = name.drop_last();
        let c = name.last();
        passes_doubled(front);
        if c == '"' {
            passes_quote(true);
            passes_quote(false);
            passes_both(seq!['"'], seq!['"'], true, false, true);
            passes_both(doubled(front), seq!['"'] + seq!['"'], true, true, true);
            assert(doubled(name) =~= doubled(front) + (seq!['"'] + seq!['"']));
        } else {
            passes_inside(c);
            passes_both(doubled(front), seq![c], true, true, true);
            assert(doubled(name) =~= doubled(front) + seq![c]);
        }
    }
}

/// A quoted name hides its own commas and quotes from the scan.
pub proof fn passes_quoted(name: Seq<char>)
    ensures
        passes(quoted(name), false, false),
{
    passes_quote(false);
    passes_quote(true);
    passes_doubled(name);
    passes_both(seq!['"'], doubled(name), false, true, true);
    passes_both(seq!['"'] + doubled(name), seq!['"'], false, true, false);
}

proof fn joined_front(es: Seq<Seq<char>>)
    requires
        es.len() > 1,
    ensures
        joined(es) == es[0] + seq![','] + joined(es.skip(1)),
    decreases es.len(),
{
    let rest = es.skip(1);
    if es.len() == 2 {
        assert(es.drop_last().len() == 1);
        assert(joined(es.drop_last()) == es[0]);
        assert(joined(rest) == es[1]);
    } else {
        let front = es.drop_last();
        joined_front(front);
        assert(front.skip(1) =~= rest.drop_last());
        assert(joined(rest) == joined(rest.drop_last()) + seq![','] + rest.last());
        assert(joined(es) =~= es[0] + seq![','] + joined(rest));
    }
}

/// Whole entries that are joined come apart again.
pub proof fn joined_splits(es: Seq<Seq<char>>)
    requires
        forall|i: int| 0 <= i < es.len() ==> whole(#[trigger] es[i]),
    ensures
        entries_of(joined(es)) == es,
    decreases es.len(),
{
    let t = joined(es);
    if es.len() == 0 {
        assert(entries_of(t) =~= es);
    } else {
        let e = es[0];
        assert(whole(e));
        if es.len() == 1 {
            assert(t == e);
            assert(e + Seq::<char>::empty() =~= e);
            assert(top_comma(e + Seq::<char>::empty(), false) == e.len() + top_comma(Seq::empty(), false));
            assert(t.take(e.len() as int) =~= e);
            assert(entries_of(t) =~= es);
        } else {
            joined_front(es);
            let rest = es.skip(1);
            let tail = seq![','] + joined(rest);
            assert(t =~= e + tail);
            assert(top_comma(e + tail, false) == e.len() + top_comma(tail, false));
            assert(t.take(e.len() as int) =~= e);
            assert(t.skip(e.len() as int + 1) =~= joined(rest));
            joined_splits(rest);
            assert(seq![e] + rest =~= es);
        }
    }
}

/// Splits a change list at the commas outside quotes, dropping empty entries.
pub fn split_entries(changes_made: &str) -> (entries: Vec<String>)
    ensures
        entries.deep_view() == entries_of(changes_made@),
{
    let chars = chars_of(changes_made);
    let ghost t = chars@;
    let mut entries: Vec<String> = Vec::new();
    let mut inside = false;
    let mut start: usize = 0;
    let mut i: usize = 0;
    assert(t.skip(0) =~= t);
    assert(entries.deep_view() + entries_of(t) =~= entries_of(t));
    while i < chars.len()
        invariant
            t == chars@,
            start <= i <= chars@.len(),
            top_comma(t.skip(start as int), false) == (i - start) + top_comma(t.skip(i as int), inside),
            entries.deep_view() + entries_of(t.skip(start as int)) == entries_of(t),
        decreases chars.len() - i,
    {
        let c: char = chars[i];
        let ghost u = t.skip(start as int);
        let ghost v = t.skip(i as int);
        let ghost done = entries.deep_view();
        assert(v[0] == c);
        assert(v.skip(1) =~= t.skip(i + 1));
        if c == '"' {
            inside = !inside;
        } else if c == ',' && !inside {
            proof {
                assert(top_comma(u, false) == i - start);
                assert(u.take(i - start) =~= t.subrange(start as int, i as int));
                assert(u.skip(i - start + 1) =~= t.skip(i + 1));
            }
            if start < i {
                entries.push(string_of(&chars, start, i));
                assert(entries.deep_view() =~= done + seq![u.take(i - start)]);
                assert(entries.deep_view() + entries_of(t.skip(i + 1)) =~= done + entries_of(u));
            } else {
                assert(entries_of(u) =~= entries_of(t.skip(i + 1)));
            }
            start = i + 1;
        }
        i = i + 1;
    }
    proof {
        let u = t.skip(start as int);
        assert(t.skip(i as int) =~= Seq::<char>::empty());
        assert(top_comma(u, false) == u.len());
        assert(u.take(u.len() as int) =~= u);
    }
    let ghost done = entries.deep_view();
    if start < chars.len() {
        entries.push(string_of(&chars, start, chars.len()));
        proof {
            assert(t.subrange(start as int, t.len() as int) =~= t.skip(start as int));
            assert(entries.deep_view() =~= done + entries_of(t.skip(start as int)));
        }
    } else {
        assert(entries.deep_view() =~= done + entries_of(t.skip(start as int)));
    }
    entries
}

/// Joins the entries with commas.
pub fn join_entries(entries: &Vec<String>) -> (out: String)
    ensures
        out@ == joined(entries.deep_view()),
{
    let mut out = String::new();
    let ghost es = entries.deep_view();
    let mut i: usize = 0;
    assert(es.take(0) =~= Seq::<Seq<char>>::empty());
    assert(out@ =~= joined(es.take(0)));
    while i < entries.len()
        invariant
            i <= entries@.len(),
            es == entries.deep_view(),
            out@ == joined(es.take(i as int)),
        decreases entries.len() - i,
    {
        let ghost next = es.take(i + 1);
        assert(next.drop_last() =~= es.take(i as int));
        assert(next.last() == es[i as int]);
        if i > 0 {
            out.push(',');
        }
        crate::text::push_text(&mut out, entries[i].as_str());
        proof {
            if i == 0 {
                assert(joined(next) == next[0]);
                assert(out@ =~= joined(next));
            } else {
                assert(out@ =~= joined(es.take(i as int)) + seq![','] + es[i as int]);
            }
        }
        i = i + 1;
    }
    assert(es.take(es.len() as int) =~= es);
    out
}

proof fn quotes_close(t: Seq<char>)
    ensures
        match unquoted(t) {
            Some((name, rest)) => t == doubled(name) + seq!['"'] + rest,
            None => true,
        },
    decreases t.len(),
{
    if t.len() > 0 {
        match unquoted(t) {
            Some((name, rest)) => {
                if t[0] != '"' {
                    quotes_close(t.skip(1));
                    let inner = (unquoted(t.skip(1))->0).0;
                    doubled_in_front(t[0], inner);
                    assert(name =~= seq![t[0]] + inner);
                    assert(t =~= seq![t[0]] + t.skip(1));
                    assert(t =~= doubled(name) + seq!['"'] + rest);
                } else if t.len() > 1 && t[1] == '"' {
                    quotes_close(t.skip(2));
                    let inner = (unquoted(t.skip(2))->0).0;
                    doubled_in_front('"', inner);
                    assert(name =~= seq!['"'] + inner);
                    assert(t =~= seq!['"', '"'] + t.skip(2));
                    assert(t =~= doubled(name) + seq!['"'] + rest);
                } else {
                    assert(doubled(name) =~= Seq::<char>::empty());
                    assert(t =~= doubled(name) + seq!['"'] + rest);
                }
            },
            None => {},
        }
    }
}

proof fn doubled_in_front(c: char, name: Seq<char>)
    ensures
        doubled(seq![c] + name) == (if c == '"' {
            seq!['"', '"']
        } else {
            seq![c]
        }) + doubled(name),
    decreases name.len(),
{
    let all = seq![c] + name;
    if name.len() == 0 {
        assert(all.drop_last() =~= Seq::<char>::empty());
        assert(doubled(all.drop_last()) =~= Seq::<char>::empty());
        assert(doubled(name) =~= Seq::<char>::empty());
        assert(all.last() == c);
        if c == '"' {
            assert(doubled(all) =~= seq!['"', '"'] + doubled(name));
        } else {
            assert(doubled(all) =~= seq![c] + doubled(name));
        }
    } else {
        doubled_in_front(c, name.drop_last());
        assert(all.drop_last() =~= seq![c] + name.drop_last());
        assert(all.last() == name.last());
        if c == '"' {
            assert(doubled(all) =~= seq!['"', '"'] + doubled(name));
        } else {
            assert(doubled(all) =~= seq![c] + doubled(name));
        }
    }
}

/// No payload but the quoted name itself, or the two joined by a dot, is read as
/// a name or as a pair of names.
pub proof fn payloads_are_quoted_names(t: Seq<char>)
    ensures
        match name_payload(t) {
            Some(name) => t == quoted(name),
            None => true,
        },
        match pair_payload(t) {
            Some((first, second)) => t == quoted(first) + seq!['.'] + quoted(second),
            None => true,
        },
{
    if t.len() > 0 && t[0] == '"' {
        quotes_close(t.skip(1));
        assert(t =~= seq!['"'] + t.skip(1));
        match name_payload(t) {
            Some(name) => {
                assert(t =~= quoted(name));
            },
            None => {},
        }
        match pair_payload(t) {
            Some((first, second)) => {
                let rest = (quoted_prefix(t)->0).1;
                let last = rest.skip(1);
                quotes_close(last.skip(1));
                assert(last =~= seq!['"'] + last.skip(1));
                assert(last =~= quoted(second));
                assert(rest =~= seq!['.'] + last);
                assert(t =~= quoted(first) + seq!['.'] + quoted(second));
            },
            None => {},
        }
    }
}

} // verus!
