use vstd::prelude::*;

use crate::text::{decimal_spec, push_decimal};

verus! {

/// How many documents a content search returns at most.
pub const SEARCH_LIMIT: usize = 10;

/// `f` as a phrase of the query language: between double quotes.
pub open spec fn phrase(f: Seq<char>) -> Seq<char> {
    "\""@ + f + "\""@
}

/// The query that matches the documents of any of `files`: their phrases
/// joined by ` OR `.
pub open spec fn paths_query_spec(files: Seq<Seq<char>>) -> Seq<char>
    decreases files.len(),
{
    if files.len() == 0 {
        Seq::empty()
    } else if files.len() == 1 {
        phrase(files[0])
    } else {
        paths_query_spec(files.drop_last()) + " OR "@ + phrase(files.last())
    }
}

/// The query that selects the documents of `files`, the paths of a delete.
pub fn paths_delete_query(files: &Vec<String>) -> (r: String)
    ensures
        r@ == paths_query_spec(files@.map_values(|f: String| f@)),
{
    let ghost views = files@.map_values(|f: String| f@);
    let mut r = String::new();
    let mut i: usize = 0;
    while i < files.len()
        invariant
            i <= files@.len(),
            views == files@.map_values(|f: String| f@),
            r@ == paths_query_spec(views.take(i as int)),
        decreases files@.len() - i,
    {
        proof {
            assert(views.take(i + 1).drop_last() =~= views.take(i as int));
        }
        let ghost before = r@;
        if i > 0 {
            r.append(" OR ");
        }
        r.append("\"");
        r.append(files[i].as_str());
        r.append("\"");
        proof {
            if i == 0 {
                assert(before =~= Seq::<char>::empty());
                assert(r@ =~= phrase(views.take(1)[0]));
            } else {
                assert(r@ =~= paths_query_spec(views.take(i as int)) + " OR "@ + phrase(
                    views.take(i + 1).last(),
                ));
            }
        }
        i = i + 1;
    }
    proof {
        assert(views.take(files@.len() as int) =~= views);
    }
    r
}

/// The query that selects the documents written before generation `now`:
/// a range over `updated_at` from 0, `now` itself left out.
pub open spec fn stale_query_spec(now: u64) -> Seq<char> {
    "updated_at:[0 TO "@ + decimal_spec(now as nat) + "}"@
}

/// The query that selects the documents older than generation `now`.
pub fn stale_docs_query(now: u64) -> (r: String)
    ensures
        r@ == stale_query_spec(now),
{
    let mut r = String::new();
    r.append("updated_at:[0 TO ");
    push_decimal(&mut r, now);
    r.append("}");
    proof {
        assert(r@ =~= stale_query_spec(now));
    }
    r
}

/// The pattern of a search by name: the keyword anywhere in the name.
pub open spec fn name_pattern_spec(keyword: Seq<char>) -> Seq<char> {
    "%"@ + keyword + "%"@
}

/// The `LIKE` pattern that finds the names holding `keyword`.
pub fn name_like_pattern(keyword: &str) -> (r: String)
    ensures
        r@ == name_pattern_spec(keyword@),
{
    let mut r = String::new();
    r.append("%");
    r.append(keyword);
    r.append("%");
    proof {
        assert(r@ =~= name_pattern_spec(keyword@));
    }
    r
}

} // verus!
