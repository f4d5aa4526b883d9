//! How values and texts are taken apart and put together.

use vstd::prelude::*;

use crate::json::{entries_map, json_parsed, json_read, object, JsonView};
use crate::text::{is_white_space, joined, trimmed};

verus! {

/// A value is found under a key of an object and nowhere else, and a value is a string, an
/// array or an integer only where it was made as one.
pub proof fn law_access(
    j: JsonView,
    m: Map<Seq<char>, JsonView>,
    key: Seq<char>,
    s: Seq<char>,
    items: Seq<JsonView>,
    u: u64,
)
    ensures
        m.contains_key(key) ==> JsonView::Object(m).get(key) == Some(m[key]),
        !m.contains_key(key) ==> JsonView::Object(m).get(key) is None,
        j !is Object ==> j.get(key) is None,
        j.get(key) is Some ==> Some(j.at(key)) == j.get(key),
        j.get(key) is None ==> j.at(key) is Null,
        j.text() == Some(s) <==> j == JsonView::Text(s),
        j.text() is None <==> j !is Text,
        j.items() == Some(items) <==> j == JsonView::Array(items),
        j.items() is None <==> j !is Array,
        j.unsigned() == Some(u) <==> j == JsonView::Integer(u as int),
{
}

/// Setting an entry of an object changes what stands under its key and nothing else.
pub proof fn law_object(
    entries: Seq<(Seq<char>, JsonView)>,
    key: Seq<char>,
    value: JsonView,
    other: Seq<char>,
)
    ensures
        object(Seq::empty()).get(other) is None,
        object(entries.push((key, value))).get(key) == Some(value),
        other != key ==> object(entries.push((key, value))).get(other) == object(entries).get(other),
{
    lemma_entries_push(entries, key, value);
    assert(entries_map(Seq::<(Seq<char>, JsonView)>::empty()) =~= Map::empty());
}

/// Setting one more entry.
pub proof fn lemma_entries_push(entries: Seq<(Seq<char>, JsonView)>, key: Seq<char>, value: JsonView)
    ensures
        entries_map(entries.push((key, value))) == entries_map(entries).insert(key, value),
{
    assert(entries.push((key, value)).drop_last() =~= entries);
}

/// A text is read as a value if and only if reading it succeeds with this value.
pub proof fn law_parsed(text: Seq<char>, j: JsonView)
    ensures
        json_parsed(text) == Some(j) <==> json_read(text) == Ok::<JsonView, serde_json::Error>(j),
        json_parsed(text) is None <==> json_read(text) is Err,
{
}

/// Nothing joins to nothing, one part to itself, and two lists of parts to what each joins
/// to, with the separator between.
pub proof fn law_joined(a: Seq<Seq<char>>, b: Seq<Seq<char>>, part: Seq<char>, sep: Seq<char>)
    ensures
        joined(Seq::empty(), sep).len() == 0,
        joined(seq![part], sep) == part,
        a.len() > 0 && b.len() > 0 ==> joined(a + b, sep) == joined(a, sep) + sep + joined(b, sep),
    decreases b.len(),
{
    if a.len() > 0 && b.len() > 0 {
        assert((a + b).drop_last() =~= a + b.drop_last());
        if b.len() == 1 {
            assert(a + b.drop_last() =~= a);
        } else {
            law_joined(a, b.drop_last(), part, sep);
        }
        assert(joined(a + b, sep) =~= joined(a, sep) + sep + joined(b, sep));
    }
}

/// Every character is white space.
pub open spec fn is_blank(s: Seq<char>) -> bool {
    forall|i: int| 0 <= i < s.len() ==> is_white_space(#[trigger] s[i])
}

/// There is no white space at either end.
pub open spec fn is_bare(s: Seq<char>) -> bool {
    s.len() > 0 ==> !is_white_space(s.first()) && !is_white_space(s.last())
}

/// White space around a text does not count: trimming leaves what stands between.
pub proof fn law_trimmed(before: Seq<char>, s: Seq<char>, after: Seq<char>)
    requires
        is_blank(before),
        is_blank(after),
        is_bare(s),
    ensures
        trimmed(before + s + after) == s,
    decreases before.len() + after.len(),
{
    let all = before + s + after;
    if before.len() > 0 {
        assert(is_white_space(before[0]));
        assert(all.first() == before[0]);
        assert(all.drop_first() =~= before.drop_first() + s + after);
        law_trimmed(before.drop_first(), s, after);
    } else if after.len() > 0 {
        if s.len() == 0 {
            assert(is_white_space(after[0]));
            assert(all.first() == after[0]);
            assert(all.drop_first() =~= before + s + after.drop_first());
            law_trimmed(before, s, after.drop_first());
        } else {
            assert(is_white_space(after[after.len() - 1]));
            assert(all.first() == s.first());
            assert(all.last() == after.last());
            assert(all.drop_last() =~= before + s + after.drop_last());
            law_trimmed(before, s, after.drop_last());
        }
    } else {
        assert(all =~= s);
    }
}

} // verus!
