//! Model-name mapping tables and the migration that folds legacy
//! per-protocol tables into the unified custom table.
use vstd::prelude::*;
use vstd::utf8::encode_utf8;

verus! {

/// An ordered list of `(from, to)` model-name pairs; the first entry whose
/// key matches wins.
#[derive(Debug)]
pub struct MappingTable {
    pub entries: Vec<(String, String)>,
}

pub open spec fn entries_view(e: Seq<(String, String)>) -> Seq<(Seq<char>, Seq<char>)> {
    e.map_values(|p: (String, String)| (p.0@, p.1@))
}

impl View for MappingTable {
    type V = Seq<(Seq<char>, Seq<char>)>;

    open spec fn view(&self) -> Self::V {
        entries_view(self.entries@)
    }
}

/// The value bound to `k` by the first entry whose key is `k`.
pub open spec fn lookup<V>(s: Seq<(Seq<char>, V)>, k: Seq<char>) -> Option<V>
    decreases s.len(),
{
    if s.len() == 0 {
        None
    } else if s[0].0 == k {
        Some(s[0].1)
    } else {
        lookup(s.drop_first(), k)
    }
}

/// Appending an entry never changes an existing binding and binds a new key.
pub proof fn lemma_lookup_push<V>(s: Seq<(Seq<char>, V)>, e: (Seq<char>, V), k: Seq<char>)
    ensures
        lookup(s.push(e), k) == (if lookup(s, k) is Some {
            lookup(s, k)
        } else if e.0 == k {
            Some(e.1)
        } else {
            None
        }),
    decreases s.len(),
{
    if s.len() > 0 {
        assert(s.push(e)[0] == s[0]);
        assert(s.push(e).drop_first() =~= s.drop_first().push(e));
        lemma_lookup_push(s.drop_first(), e, k);
        assert(lookup(s.push(e), k) == (if s[0].0 == k {
            Some(s[0].1)
        } else {
            lookup(s.drop_first().push(e), k)
        }));
    } else {
        assert(s.push(e)[0] == e);
        assert(s.push(e).drop_first() =~= Seq::<(Seq<char>, V)>::empty());
        assert(lookup(s.push(e).drop_first(), k) is None);
    }
}

/// Overwriting the first entry for a key rebinds that key and no other.
pub proof fn lemma_lookup_update<V>(s: Seq<(Seq<char>, V)>, i: int, e: (Seq<char>, V), k: Seq<char>)
    requires
        0 <= i < s.len(),
        s[i].0 == e.0,
        forall|j: int| 0 <= j < i ==> s[j].0 != e.0,
    ensures
        lookup(s.update(i, e), k) == (if k == e.0 {
            Some(e.1)
        } else {
            lookup(s, k)
        }),
    decreases i,
{
    let t = s.update(i, e);
    if i > 0 {
        assert(t[0] == s[0]);
        assert(t.drop_first() =~= s.drop_first().update(i - 1, e));
        lemma_lookup_update(s.drop_first(), i - 1, e, k);
    } else {
        assert(t[0] == e);
        assert(t.drop_first() =~= s.drop_first());
    }
}

/// Byte encoding of the suffix `-series`.
pub open spec fn series_suffix() -> Seq<u8> {
    seq![45u8, 115u8, 101u8, 114u8, 105u8, 101u8, 115u8]
}

/// A provider-family wildcard key (`...-series`), resolved by built-in
/// tables and never copied into the custom table.
pub open spec fn is_series_key(k: Seq<char>) -> bool {
    let b = encode_utf8(k);
    b.len() >= 7 && b.subrange(b.len() - 7, b.len() as int) == series_suffix()
}

pub fn ends_with_series(k: &String) -> (r: bool)
    ensures
        r == is_series_key(k@),
{
    let b = k.as_str().as_bytes();
    let n = b.len();
    if n < 7 {
        return false;
    }
    let suffix: [u8; 7] = [45u8, 115u8, 101u8, 114u8, 105u8, 101u8, 115u8];
    let mut i: usize = 0;
    while i < 7
        invariant
            n == b@.len(),
            n >= 7,
            b@ == encode_utf8(k@),
            suffix@ == series_suffix(),
            0 <= i <= 7,
            forall|j: int| 0 <= j < i ==> b@[n - 7 + j] == series_suffix()[j],
        decreases 7 - i,
    {
        if b[n - 7 + i] != suffix[i] {
            assert(b@.subrange(n - 7, n as int)[i as int] != series_suffix()[i as int]);
            return false;
        }
        i = i + 1;
    }
    assert(b@.subrange(n - 7, n as int) =~= series_suffix());
    true
}

/// Rewrites a model identifier through the table; unmapped names pass
/// through unchanged.
pub fn resolve_model(table: &MappingTable, model: &String) -> (r: String)
    ensures
        r@ == (match lookup(table@, model@) {
            Some(v) => v,
            None => model@,
        }),
{
    match find(table, model) {
        Some(i) => table.entries[i].1.clone(),
        None => model.clone(),
    }
}

/// Index of the first entry whose key is `k`.
pub fn find(table: &MappingTable, k: &String) -> (r: Option<usize>)
    ensures
        match r {
            Some(i) => i < table@.len() && table@[i as int].0 == k@ && lookup(table@, k@)
                == Some(table@[i as int].1),
            None => lookup(table@, k@) is None,
        },
{
    let mut i: usize = 0;
    assert(table@.subrange(0, table@.len() as int) =~= table@);
    while i < table.entries.len()
        invariant
            0 <= i <= table@.len(),
            table@.len() == table.entries@.len(),
            lookup(table@, k@) == lookup(table@.subrange(i as int, table@.len() as int), k@),
        decreases table.entries.len() - i,
    {
        let ghost rest = table@.subrange(i as int, table@.len() as int);
        assert(rest.drop_first() =~= table@.subrange(i + 1, table@.len() as int));
        if table.entries[i].0 == *k {
            return Some(i);
        }
        i = i + 1;
    }
    None
}

/// The binding a migrated custom table gives `k`: an existing custom entry
/// wins, then a non-wildcard entry of the Anthropic table, then one of the
/// OpenAI table.
pub open spec fn migrated_lookup(
    custom: Seq<(Seq<char>, Seq<char>)>,
    anthropic: Seq<(Seq<char>, Seq<char>)>,
    openai: Seq<(Seq<char>, Seq<char>)>,
    k: Seq<char>,
) -> Option<Seq<char>> {
    if lookup(custom, k) is Some {
        lookup(custom, k)
    } else if is_series_key(k) {
        None
    } else if lookup(anthropic, k) is Some {
        lookup(anthropic, k)
    } else {
        lookup(openai, k)
    }
}

pub open spec fn opt_view(t: Option<MappingTable>) -> Seq<(Seq<char>, Seq<char>)> {
    match t {
        Some(m) => m@,
        None => Seq::empty(),
    }
}

/// Result of folding the legacy tables into the custom table.
pub struct Migration {
    pub custom_mapping: MappingTable,
    /// Whether any legacy table was present, so that the stored
    /// configuration must be rewritten.
    pub modified: bool,
}

/// Adds each non-wildcard entry of `src` whose key `acc` does not bind yet.
fn merge_missing(acc: &mut MappingTable, src: &MappingTable)
    ensures
        forall|k: Seq<char>| #[trigger] lookup(final(acc)@, k) == (if lookup(old(acc)@, k) is Some {
            lookup(old(acc)@, k)
        } else if is_series_key(k) {
            None
        } else {
            lookup(src@, k)
        }),
{
    let ghost start = acc@;
    let mut i: usize = 0;
    while i < src.entries.len()
        invariant
            0 <= i <= src@.len(),
            src@.len() == src.entries@.len(),
            forall|k: Seq<char>| #[trigger] lookup(acc@, k) == (if lookup(start, k) is Some {
                lookup(start, k)
            } else if is_series_key(k) {
                None
            } else {
                lookup(src@.subrange(0, i as int), k)
            }),
        decreases src.entries.len() - i,
    {
        let key = &src.entries[i].0;
        let ghost e = src@[i as int];
        let ghost before = acc@;
        assert(src@.subrange(0, i + 1) =~= src@.subrange(0, i as int).push(e));
        if !ends_with_series(key) && find(acc, key).is_none() {
            acc.entries.push((key.clone(), src.entries[i].1.clone()));
            assert(acc@ =~= before.push(e));
            assert forall|k: Seq<char>| #[trigger] lookup(acc@, k) == (if lookup(start, k) is Some {
                lookup(start, k)
            } else if is_series_key(k) {
                None
            } else {
                lookup(src@.subrange(0, i + 1), k)
            }) by {
                lemma_lookup_push(before, e, k);
                lemma_lookup_push(src@.subrange(0, i as int), e, k);
            }
        } else {
            assert forall|k: Seq<char>| #[trigger] lookup(acc@, k) == (if lookup(start, k) is Some {
                lookup(start, k)
            } else if is_series_key(k) {
                None
            } else {
                lookup(src@.subrange(0, i + 1), k)
            }) by {
                lemma_lookup_push(src@.subrange(0, i as int), e, k);
            }
        }
        i = i + 1;
    }
    assert(src@.subrange(0, src@.len() as int) =~= src@);
}

/// Folds the legacy Anthropic and OpenAI tables into the custom table. A
/// custom table that was absent or not a table counts as empty.
pub fn migrate_mappings(
    custom: Option<MappingTable>,
    anthropic: Option<MappingTable>,
    openai: Option<MappingTable>,
) -> (r: Migration)
    ensures
        r.modified == (anthropic is Some || openai is Some),
        forall|k: Seq<char>| #[trigger] lookup(r.custom_mapping@, k) == migrated_lookup(
            opt_view(custom), opt_view(anthropic), opt_view(openai), k),
{
    let mut acc = match custom {
        Some(m) => m,
        None => MappingTable { entries: Vec::new() },
    };
    assert(acc@ =~= opt_view(custom));
    let modified = anthropic.is_some() || openai.is_some();
    let empty = MappingTable { entries: Vec::new() };
    match anthropic {
        Some(a) => merge_missing(&mut acc, &a),
        None => merge_missing(&mut acc, &empty),
    }
    match openai {
        Some(o) => merge_missing(&mut acc, &o),
        None => merge_missing(&mut acc, &empty),
    }
    Migration { custom_mapping: acc, modified }
}

/// Rewrites the model of a request through the table before dispatch.
pub fn map_request_model(table: &MappingTable, req: &mut crate::canonical::CanonicalRequest)
    ensures
        final(req).model@ == (match lookup(table@, old(req).model@) {
            Some(v) => v,
            None => old(req).model@,
        }),
        final(req).messages == old(req).messages,
        final(req).stream == old(req).stream,
        final(req).max_tokens == old(req).max_tokens,
{
    let m = resolve_model(table, &req.model);
    req.model = m;
}

} // verus!
