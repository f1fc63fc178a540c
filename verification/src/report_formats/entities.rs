//! How escaped XML text is read back.

use crate::report_formats::{xml_attr, xml_attr_char, xml_text, xml_text_char};
use crate::text::expanded;
use vstd::prelude::*;

verus! {

/// The character that the entity at the start of `s` stands for, and the length of
/// the entity; nothing if `s` starts with none of the five entities.
pub open spec fn entity_at(s: Seq<char>) -> Option<(char, int)> {
    if s.len() >= 5 && s.take(5) == "&amp;"@ {
        Some(('&', 5))
    } else if s.len() >= 4 && s.take(4) == "&lt;"@ {
        Some(('<', 4))
    } else if s.len() >= 4 && s.take(4) == "&gt;"@ {
        Some(('>', 4))
    } else if s.len() >= 6 && s.take(6) == "&quot;"@ {
        Some(('"', 6))
    } else if s.len() >= 6 && s.take(6) == "&apos;"@ {
        Some(('\'', 6))
    } else {
        None
    }
}

/// The text that `s` stands for: in one pass from left to right each entity is read
/// as its character, and everything else as itself.
pub open spec fn unescaped(s: Seq<char>) -> Seq<char>
    decreases s.len(),
{
    if s.len() == 0 {
        Seq::empty()
    } else {
        match entity_at(s) {
            Some((c, n)) => seq![c] + unescaped(s.skip(n)),
            None => seq![s[0]] + unescaped(s.skip(1)),
        }
    }
}

/// True if every ampersand in `s` starts one of the five entities.
pub open spec fn ampersands_are_entities(s: Seq<char>) -> bool {
    forall|k: int| 0 <= k < s.len() && #[trigger] s[k] == '&' ==> entity_at(s.skip(k)) is Some
}

proof fn expanded_splits(a: Seq<char>, b: Seq<char>, f: spec_fn(char) -> Seq<char>)
    ensures
        expanded(a + b, f) == expanded(a, f) + expanded(b, f),
    decreases b.len(),
{
    if b.len() == 0 {
        assert(a + b =~= a);
        assert(expanded(a, f) + expanded(b, f) =~= expanded(a, f));
    } else {
        expanded_splits(a, b.drop_last(), f);
        assert((a + b).drop_last() =~= a + b.drop_last());
        assert((expanded(a, f) + expanded(b.drop_last(), f)) + f(b.last()) =~= expanded(a, f) + (
        expanded(b.drop_last(), f) + f(b.last())));
    }
}

proof fn expanded_of_one(c: char, f: spec_fn(char) -> Seq<char>)
    ensures
        expanded(seq![c], f) == f(c),
{
    reveal_with_fuel(expanded, 2);
    assert(Seq::<char>::empty() + f(c) =~= f(c));
}

/// Escaping an attribute value goes piece by piece: the escaped form of two texts in a
/// row is their escaped forms in a row.
pub proof fn xml_attr_of_pieces(a: Seq<char>, b: Seq<char>)
    ensures
        xml_attr(a + b) == xml_attr(a) + xml_attr(b),
{
    expanded_splits(a, b, |c: char| xml_attr_char(c));
}

/// Escaping element text goes piece by piece.
pub proof fn xml_text_of_pieces(a: Seq<char>, b: Seq<char>)
    ensures
        xml_text(a + b) == xml_text(a) + xml_text(b),
{
    expanded_splits(a, b, |c: char| xml_text_char(c));
}

/// What one escaped character does to what follows it.
proof fn character_is_read(c: char, block: Seq<char>, rest: Seq<char>)
    requires
        block == xml_attr_char(c) || block == xml_text_char(c),
    ensures
        unescaped(block + rest) == seq![c] + unescaped(rest),
        ampersands_are_entities(rest) ==> ampersands_are_entities(block + rest),
{
    reveal_strlit("&amp;");
    reveal_strlit("&lt;");
    reveal_strlit("&gt;");
    reveal_strlit("&quot;");
    reveal_strlit("&apos;");
    let all = block + rest;
    assert(all.skip(block.len() as int) =~= rest);
    assert(all.take(block.len() as int) =~= block);
    assert(all.skip(0) =~= all);
    if block.len() == 1 {
        assert(block =~= seq![c]);
        assert(all[0] == c);
        if entity_at(all) is Some {
            let (_, n) = entity_at(all)->0;
            assert(all.take(n)[0] == all[0]);
        }
    } else {
        assert(all[0] == '&');
        assert(all[1] == block[1]);
        assert(all[2] == block[2]);
        if all.len() >= 4 {
            assert(all.take(4)[1] == all[1]);
        }
        if all.len() >= 5 {
            assert(all.take(5)[1] == all[1]);
            assert(all.take(5)[2] == all[2]);
        }
        if all.len() >= 6 {
            assert(all.take(6)[1] == all[1]);
        }
        assert(entity_at(all) == Some((c, block.len() as int)));
    }
    if ampersands_are_entities(rest) {
        assert forall|k: int| 0 <= k < all.len() && #[trigger] all[k] == '&' implies entity_at(
            all.skip(k),
        ) is Some by {
            if k >= block.len() {
                assert(rest[k - block.len()] == '&');
                assert(all.skip(k) =~= rest.skip(k - block.len()));
            } else {
                assert(block[k] == '&');
                assert(k == 0);
            }
        }
    }
}

/// Reading an escaped attribute value gives back the text, and every ampersand in it
/// starts an entity, whatever the text.
pub proof fn xml_attr_is_read_back(s: Seq<char>)
    ensures
        unescaped(xml_attr(s)) == s,
        ampersands_are_entities(xml_attr(s)),
    decreases s.len(),
{
    if s.len() > 0 {
        let first = seq![s[0]];
        let rest = s.skip(1);
        assert(first + rest =~= s);
        xml_attr_of_pieces(first, rest);
        expanded_of_one(s[0], |c: char| xml_attr_char(c));
        xml_attr_is_read_back(rest);
        character_is_read(s[0], xml_attr_char(s[0]), xml_attr(rest));
    }
}

/// Reading escaped element text gives back the text, and every ampersand in it starts an
/// entity, whatever the text.
pub proof fn xml_text_is_read_back(s: Seq<char>)
    ensures
        unescaped(xml_text(s)) == s,
        ampersands_are_entities(xml_text(s)),
    decreases s.len(),
{
    if s.len() > 0 {
        let first = seq![s[0]];
        let rest = s.skip(1);
        assert(first + rest =~= s);
        xml_text_of_pieces(first, rest);
        expanded_of_one(s[0], |c: char| xml_text_char(c));
        xml_text_is_read_back(rest);
        character_is_read(s[0], xml_text_char(s[0]), xml_text(rest));
    }
}

} // verus!
