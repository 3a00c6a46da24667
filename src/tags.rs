//! Tag strings: each heading's text is cleaned on its own, then the two are joined.
use vstd::prelude::*;
use vstd::string::*;
use crate::text::to_chars;

verus! {

/// What one character of a heading becomes in a tag: a space turns into an underscore,
/// a comma is dropped, anything else stays.
pub open spec fn clean_char(c: char) -> Seq<char> {
    if c == ' ' {
        seq!['_']
    } else if c == ',' {
        seq![]
    } else {
        seq![c]
    }
}

/// A heading's text with spaces made underscores and commas removed.
pub open spec fn strip_tag(s: Seq<char>) -> Seq<char>
    decreases s.len(),
{
    if s.len() == 0 {
        seq![]
    } else {
        strip_tag(s.drop_last()) + clean_char(s.last())
    }
}

/// Spaces made underscores, nothing else changed.
pub open spec fn replace_spaces(s: Seq<char>) -> Seq<char> {
    s.map_values(|c: char| if c == ' ' { '_' } else { c })
}

/// Commas removed, nothing else changed.
pub open spec fn remove_commas(s: Seq<char>) -> Seq<char> {
    s.filter(|c: char| c != ',')
}

/// The tag string of a card: both headings cleaned on their own, joined by one space.
pub open spec fn combined_tags(main: Seq<char>, sub: Seq<char>) -> Seq<char> {
    strip_tag(main) + seq![' '] + strip_tag(sub)
}

/// Cleans a heading's text for use in a tag.
pub fn sanitize_tag(s: &str) -> (r: String)
    ensures
        r@ == strip_tag(s@),
{
    let chars = to_chars(s);
    let mut r = String::new();
    let mut i: usize = 0;
    proof {
        reveal_strlit("_");
        assert(s@.take(0) =~= Seq::<char>::empty());
    }
    while i < chars.len()
        invariant
            chars@ == s@,
            i <= chars.len(),
            r@ == strip_tag(s@.take(i as int)),
            "_"@ =~= seq!['_'],
        decreases chars.len() - i,
    {
        let c = chars[i];
        proof {
            assert(s@.take(i + 1).drop_last() =~= s@.take(i as int));
        }
        if c == ' ' {
            r.append("_");
        } else if c != ',' {
            let one = s.substring_char(i, i + 1);
            proof {
                assert(one@ =~= seq![c]);
            }
            r.append(one);
        } else {
            proof {
                assert(r@ + clean_char(c) =~= r@);
            }
        }
        i += 1;
    }
    proof {
        assert(s@.take(i as int) =~= s@);
    }
    r
}

/// Builds the tag string of a card from the current main and sub headings.
pub fn combine_tags(main_tag: &str, sub_tag: &str) -> (r: String)
    ensures
        r@ == combined_tags(main_tag@, sub_tag@),
{
    let mut r = sanitize_tag(main_tag);
    let sub = sanitize_tag(sub_tag);
    proof {
        reveal_strlit(" ");
        assert(" "@ =~= seq![' ']);
    }
    r.append(" ");
    r.append(sub.as_str());
    r
}

/// Cleaning distributes over concatenation.
pub proof fn lemma_strip_tag_concat(a: Seq<char>, b: Seq<char>)
    ensures
        strip_tag(a + b) == strip_tag(a) + strip_tag(b),
    decreases b.len(),
{
    if b.len() == 0 {
        assert(a + b =~= a);
        assert(strip_tag(b) =~= Seq::<char>::empty());
        assert(strip_tag(a) + strip_tag(b) =~= strip_tag(a));
    } else {
        assert((a + b).drop_last() =~= a + b.drop_last());
        lemma_strip_tag_concat(a, b.drop_last());
        assert(strip_tag(a + b) =~= strip_tag(a) + strip_tag(b));
    }
}

/// Cleaned text holds neither spaces nor commas.
pub proof fn lemma_strip_tag_clean(s: Seq<char>)
    ensures
        forall|k: int| 0 <= k < strip_tag(s).len() ==> strip_tag(s)[k] != ' ' && strip_tag(s)[k] != ',',
    decreases s.len(),
{
    if s.len() > 0 {
        lemma_strip_tag_clean(s.drop_last());
        let t = strip_tag(s.drop_last());
        let u = clean_char(s.last());
        assert(strip_tag(s) == t + u);
        assert forall|k: int| 0 <= k < (t + u).len() implies (t + u)[k] != ' ' && (t + u)[k]
            != ',' by {
            if k >= t.len() {
                assert((t + u)[k] == u[k - t.len()]);
            }
        }
    }
}

/// Text without spaces or commas is left as it is.
pub proof fn lemma_strip_tag_fixed(s: Seq<char>)
    requires
        forall|k: int| 0 <= k < s.len() ==> s[k] != ' ' && s[k] != ',',
    ensures
        strip_tag(s) == s,
    decreases s.len(),
{
    if s.len() > 0 {
        lemma_strip_tag_fixed(s.drop_last());
        assert(s.drop_last() + seq![s.last()] =~= s);
    }
}

/// Cleaning a tag twice gives what cleaning it once gives.
pub proof fn lemma_strip_tag_idempotent(s: Seq<char>)
    ensures
        strip_tag(strip_tag(s)) == strip_tag(s),
{
    lemma_strip_tag_clean(s);
    lemma_strip_tag_fixed(strip_tag(s));
}

/// Cleaning is replacing the spaces and removing the commas, in either order.
pub proof fn lemma_strip_tag_order(s: Seq<char>)
    ensures
        strip_tag(s) == remove_commas(replace_spaces(s)),
        strip_tag(s) == replace_spaces(remove_commas(s)),
    decreases s.len(),
{
    if s.len() > 0 {
        let t = s.drop_last();
        lemma_strip_tag_order(t);
        assert(replace_spaces(s) =~= replace_spaces(t).push(replace_spaces(s).last()));
        reveal(Seq::filter);
        assert(replace_spaces(s).drop_last() =~= replace_spaces(t));
        assert(remove_commas(replace_spaces(s)) =~= strip_tag(s));
        assert(s.filter(|c: char| c != ',') == if s.last() != ',' {
            t.filter(|c: char| c != ',').push(s.last())
        } else {
            t.filter(|c: char| c != ',')
        });
        assert(replace_spaces(remove_commas(s)) =~= strip_tag(s));
    }
}

/// The two headings are cleaned each on its own: the result is cleaning the joined text,
/// except that the joining space stays a space. So joining first and cleaning after never
/// gives the card's tags.
pub proof fn lemma_tags_per_field(main: Seq<char>, sub: Seq<char>)
    ensures
        strip_tag(main + seq![' '] + sub) == strip_tag(main) + seq!['_'] + strip_tag(sub),
        combined_tags(main, sub) != strip_tag(main + seq![' '] + sub),
{
    lemma_strip_tag_concat(main + seq![' '], sub);
    lemma_strip_tag_concat(main, seq![' ']);
    assert(seq![' '].drop_last() =~= Seq::<char>::empty());
    assert(strip_tag(Seq::<char>::empty()) =~= Seq::<char>::empty());
    assert(seq![' '].last() == ' ');
    assert(strip_tag(seq![' ']) == strip_tag(seq![' '].drop_last()) + clean_char(' '));
    assert(strip_tag(seq![' ']) =~= seq!['_']);
    let k = strip_tag(main).len() as int;
    assert(combined_tags(main, sub)[k] == ' ');
    assert((strip_tag(main) + seq!['_'] + strip_tag(sub))[k] == '_');
}

} // verus!
