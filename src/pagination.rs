use vstd::prelude::*;

use crate::registry::ApplicationData;

verus! {

/// Stored entries as the contracts see them: each id by its characters.
pub open spec fn entries_view(v: Seq<(String, ApplicationData)>) -> Seq<(Seq<char>, ApplicationData)> {
    v.map_values(|e: (String, ApplicationData)| (e.0@, e.1))
}

/// First position of a page over `len` items.
pub open spec fn page_start(len: nat, from_index: Option<u64>) -> nat {
    match from_index {
        Some(f) => if (f as nat) < len {
            f as nat
        } else {
            len
        },
        None => 0,
    }
}

/// Position just past the last item of a page over `len` items.
pub open spec fn page_end(len: nat, from_index: Option<u64>, limit: Option<u64>) -> nat {
    let s = page_start(len, from_index);
    match limit {
        Some(l) => if s + l < len {
            (s + l) as nat
        } else {
            len
        },
        None => len,
    }
}

/// The items of `s` from `from_index` on, at most `limit` of them.
pub open spec fn page<T>(s: Seq<T>, from_index: Option<u64>, limit: Option<u64>) -> Seq<T> {
    s.subrange(
        page_start(s.len(), from_index) as int,
        page_end(s.len(), from_index, limit) as int,
    )
}

/// Copies the window `[from_index, from_index + limit)` of `entries`, clipped
/// to its length; an absent bound means the start, or everything that remains.
pub fn paginate(entries: &Vec<(String, ApplicationData)>, from_index: Option<u64>, limit: Option<u64>) -> (r: Vec<
    (String, ApplicationData),
>)
    ensures
        entries_view(r@) == page(entries_view(entries@), from_index, limit),
{
    let len = entries.len();
    let start: usize = match from_index {
        Some(f) => if (f as u128) < (len as u128) {
            f as usize
        } else {
            len
        },
        None => 0,
    };
    let end: usize = match limit {
        Some(l) => if (l as u128) < ((len - start) as u128) {
            start + l as usize
        } else {
            len
        },
        None => len,
    };
    let ghost ev = entries_view(entries@);
    assert(start == page_start(ev.len(), from_index));
    assert(end == page_end(ev.len(), from_index, limit));
    let mut r: Vec<(String, ApplicationData)> = Vec::new();
    let mut i: usize = start;
    while i < end
        invariant
            start <= i <= end <= len,
            len == entries@.len(),
            ev == entries_view(entries@),
            entries_view(r@) =~= ev.subrange(start as int, i as int),
        decreases end - i,
    {
        let ghost before = r@;
        assert(entries_view(before).len() == before.len());
        assert(ev[i as int] == (entries@[i as int].0@, entries@[i as int].1));
        let key = entries[i].0.clone();
        let value = entries[i].1.copy();
        r.push((key, value));
        assert(r@ == before.push((key, value)));
        assert(before.len() == i - start);
        assert(entries_view(r@).len() == r@.len());
        assert(r@[i - start] == (key, value));
        assert(entries_view(r@)[i - start] == ev[i as int]);
        assert(entries_view(r@) =~= ev.subrange(start as int, i + 1));
        i = i + 1;
    }
    r
}

} // verus!
