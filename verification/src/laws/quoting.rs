//! Names in statements are read back as they are.

use crate::metadata::{escaped, label_keys_wanted, relationship_keys_wanted};
use crate::text::{occurs_at, replaced};
use vstd::prelude::*;

verus! {

/// Reads a name up to the back quote that ends it, where two back quotes stand for one of the
/// name; gives the name and what follows the end.
pub open spec fn read_quoted(text: Seq<char>) -> Option<(Seq<char>, Seq<char>)>
    decreases text.len(),
{
    if text.len() == 0 {
        None
    } else if text[0] != '`' {
        match read_quoted(text.drop_first()) {
            Some((name, rest)) => Some((seq![text[0]] + name, rest)),
            None => None,
        }
    } else if text.len() > 1 && text[1] == '`' {
        match read_quoted(text.skip(2)) {
            Some((name, rest)) => Some((seq!['`'] + name, rest)),
            None => None,
        }
    } else {
        Some((Seq::empty(), text.drop_first()))
    }
}

/// An escaped name that is followed by a single back quote reads back as the name: nothing in it
/// ends the quotation early.
pub proof fn law_escaped_names_read_back(name: Seq<char>, rest: Seq<char>)
    requires
        rest.len() > 0 ==> rest[0] != '`',
    ensures
        read_quoted(escaped(name) + seq!['`'] + rest) == Some((name, rest)),
    decreases name.len(),
{
    reveal_strlit("`");
    reveal_strlit("``");
    let quote = "`"@;
    assert(quote =~= seq!['`']);
    assert("``"@ =~= seq!['`', '`']);
    let whole = escaped(name) + seq!['`'] + rest;
    if name.len() == 0 {
        assert(!occurs_at(name, quote, 0));
        assert(whole.drop_first() =~= rest);
        assert(whole[0] == '`');
        if whole.len() > 1 {
            assert(whole[1] == rest[0]);
        }
        assert(name =~= Seq::<char>::empty());
    } else {
        let tail = escaped(name.drop_first());
        let next = tail + seq!['`'] + rest;
        law_escaped_names_read_back(name.drop_first(), rest);
        assert(name =~= seq![name[0]] + name.drop_first());
        assert(name.subrange(0, 1) =~= seq![name[0]]);
        if name[0] == '`' {
            assert(occurs_at(name, quote, 0));
            assert(name.skip(1) =~= name.drop_first());
            assert(whole =~= seq!['`', '`'] + next);
            assert(whole.skip(2) =~= next);
        } else {
            assert(seq![name[0]][0] != quote[0]);
            assert(!occurs_at(name, quote, 0));
            assert(whole =~= seq![name[0]] + next);
            assert(whole.drop_first() =~= next);
        }
    }
}

/// Different names are escaped differently.
pub proof fn law_escaping_is_injective(a: Seq<char>, b: Seq<char>)
    requires
        escaped(a) == escaped(b),
    ensures
        a == b,
{
    law_escaped_names_read_back(a, Seq::empty());
    law_escaped_names_read_back(b, Seq::empty());
}

/// Escaping is undone when each pair of back quotes gives way to one.
pub proof fn law_escaping_is_undone(name: Seq<char>)
    ensures
        replaced(escaped(name), "``"@, "`"@) == name,
    decreases name.len(),
{
    reveal_strlit("`");
    reveal_strlit("``");
    let quote = "`"@;
    let pair = "``"@;
    assert(quote =~= seq!['`']);
    assert(pair =~= seq!['`', '`']);
    let whole = escaped(name);
    if name.len() == 0 {
        assert(!occurs_at(name, quote, 0));
        assert(!occurs_at(whole, pair, 0));
    } else {
        let tail = escaped(name.drop_first());
        law_escaping_is_undone(name.drop_first());
        assert(name =~= seq![name[0]] + name.drop_first());
        assert(name.subrange(0, 1) =~= seq![name[0]]);
        if name[0] == '`' {
            assert(occurs_at(name, quote, 0));
            assert(name.skip(1) =~= name.drop_first());
            assert(whole.subrange(0, 2) =~= pair);
            assert(whole.skip(2) =~= tail);
        } else {
            assert(seq![name[0]][0] != quote[0]);
            assert(!occurs_at(name, quote, 0));
            assert(whole =~= seq![name[0]] + tail);
            assert(!occurs_at(whole, pair, 0)) by {
                if occurs_at(whole, pair, 0) {
                    assert(whole.subrange(0, 2)[0] == pair[0]);
                }
            }
            assert(whole.drop_first() =~= tail);
        }
    }
}

/// The statement about a node label names that label, whatever characters it has.
pub proof fn law_label_statement_names_label(label: Seq<char>)
    ensures
        ({
            let front = "MATCH (n:`"@;
            let text = label_keys_wanted(label).text;
            &&& text.take(front.len() as int) == front
            &&& read_quoted(text.skip(front.len() as int)) == Some(
                (label, ") UNWIND keys(n) AS key RETURN DISTINCT key LIMIT 100"@),
            )
        }),
{
    reveal_strlit(") UNWIND keys(n) AS key RETURN DISTINCT key LIMIT 100");
    reveal_strlit("`) UNWIND keys(n) AS key RETURN DISTINCT key LIMIT 100");
    let front = "MATCH (n:`"@;
    let rest = ") UNWIND keys(n) AS key RETURN DISTINCT key LIMIT 100"@;
    let text = label_keys_wanted(label).text;
    assert("`) UNWIND keys(n) AS key RETURN DISTINCT key LIMIT 100"@ =~= seq!['`'] + rest);
    assert(text.take(front.len() as int) =~= front);
    assert(text.skip(front.len() as int) =~= escaped(label) + seq!['`'] + rest);
    assert(rest[0] == ')');
    law_escaped_names_read_back(label, rest);
}

/// The statement about a relationship type names that type, whatever characters it has.
pub proof fn law_relationship_statement_names_type(rel_type: Seq<char>)
    ensures
        ({
            let front = "MATCH ()-[r:`"@;
            let text = relationship_keys_wanted(rel_type).text;
            &&& text.take(front.len() as int) == front
            &&& read_quoted(text.skip(front.len() as int)) == Some(
                (rel_type, "]->() UNWIND keys(r) AS key RETURN DISTINCT key LIMIT 100"@),
            )
        }),
{
    reveal_strlit("]->() UNWIND keys(r) AS key RETURN DISTINCT key LIMIT 100");
    reveal_strlit("`]->() UNWIND keys(r) AS key RETURN DISTINCT key LIMIT 100");
    let front = "MATCH ()-[r:`"@;
    let rest = "]->() UNWIND keys(r) AS key RETURN DISTINCT key LIMIT 100"@;
    let text = relationship_keys_wanted(rel_type).text;
    assert("`]->() UNWIND keys(r) AS key RETURN DISTINCT key LIMIT 100"@ =~= seq!['`'] + rest);
    assert(text.take(front.len() as int) =~= front);
    assert(text.skip(front.len() as int) =~= escaped(rel_type) + seq!['`'] + rest);
    assert(rest[0] == ']');
    law_escaped_names_read_back(rel_type, rest);
}

} // verus!
