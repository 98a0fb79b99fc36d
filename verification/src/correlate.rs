//! The correlating join: which parsed articles concern outdated packages.
//!
//! Three order-preserving filters over the parse outcomes, in order:
//! drop the rows that failed to parse; keep articles published strictly
//! before the cutoff; keep articles whose lowercased title contains the
//! lowercase of at least one outdated package name as a substring.

use vstd::prelude::*;

use crate::articles::{parse_result_model, ArticleModel, NewsArticle, ParseError};
use crate::datetime::Timestamp;
use crate::text::{contains_str, is_substring, lower_of, lowercase};

verus! {

use vstd::string::*;

/// Some name's lowercase form occurs in the title's lowercase form.
pub open spec fn title_matches(title: Seq<char>, names: Seq<Seq<char>>) -> bool {
    exists|i: int| 0 <= i < names.len() && is_substring(lower_of(title), lower_of(names[i]))
}

/// The article passes both filters: published strictly before the cutoff,
/// and its title references one of the names, case-insensitively.
pub open spec fn keeps(a: ArticleModel, cutoff: Timestamp, names: Seq<Seq<char>>) -> bool {
    a.date.instant() < cutoff.instant() && title_matches(a.title, names)
}

/// The correlated subsequence: the articles of the successfully parsed
/// rows that pass both filters, in source order.
pub open spec fn correlated(
    parsed: Seq<Result<ArticleModel, ParseError>>,
    cutoff: Timestamp,
    names: Seq<Seq<char>>,
) -> Seq<ArticleModel>
    decreases parsed.len(),
{
    if parsed.len() == 0 {
        Seq::empty()
    } else {
        let rest = correlated(parsed.drop_last(), cutoff, names);
        match parsed.last() {
            Ok(a) => if keeps(a, cutoff, names) {
                rest.push(a)
            } else {
                rest
            },
            Err(_) => rest,
        }
    }
}

pub open spec fn result_models(s: Seq<Result<NewsArticle, ParseError>>) -> Seq<
    Result<ArticleModel, ParseError>,
> {
    s.map_values(|r: Result<NewsArticle, ParseError>| parse_result_model(r))
}

pub open spec fn article_models(s: Seq<NewsArticle>) -> Seq<ArticleModel> {
    s.map_values(|a: NewsArticle| a.model())
}

/// Case-insensitive reference check: does the title contain some name?
pub fn title_has_match(title: &String, names: &Vec<String>) -> (r: bool)
    ensures
        r == title_matches(title@, names.deep_view()),
{
    let ghost nm = names.deep_view();
    let lt = lowercase(title.as_str());
    let mut i: usize = 0;
    while i < names.len()
        invariant
            i <= names.len(),
            nm == names.deep_view(),
            nm.len() == names.len(),
            lt@ == lower_of(title@),
            forall|k: int| 0 <= k < i ==> !is_substring(lower_of(title@), lower_of(nm[k])),
        decreases names.len() - i,
    {
        let ln = lowercase(names[i].as_str());
        if contains_str(lt.as_str(), ln.as_str()) {
            proof {
                assert(is_substring(lower_of(title@), lower_of(nm[i as int])));
            }
            return true;
        }
        i += 1;
    }
    false
}

/// The correlating join.  Returns, in source order, the articles of the
/// successfully parsed rows that were published strictly before `cutoff`
/// and whose title contains, case-insensitively, at least one of `names`.
/// An empty result is an ordinary outcome, not an error.
///
/// Note the direction of the date filter: articles from before the last
/// upgrade are kept, not articles since it.  That is the observed
/// behaviour being preserved, not an obvious reading of the tool's
/// purpose; a caller wanting "news since the last upgrade" must filter
/// the other way round.
pub fn correlate(
    parsed: &Vec<Result<NewsArticle, ParseError>>,
    cutoff: &Timestamp,
    names: &Vec<String>,
) -> (r: Vec<NewsArticle>)
    requires
        cutoff.wf(),
        forall|i: int|
            0 <= i < parsed@.len() ==> (#[trigger] parsed@[i] matches Ok(a) ==> a.date.wf()),
    ensures
        article_models(r@) == correlated(result_models(parsed@), *cutoff, names.deep_view()),
{
    let ghost pm = result_models(parsed@);
    let ghost nm = names.deep_view();
    let mut r: Vec<NewsArticle> = Vec::new();
    let mut i: usize = 0;
    proof {
        assert(article_models(r@) =~= correlated(pm.take(0), *cutoff, nm));
    }
    while i < parsed.len()
        invariant
            i <= parsed.len(),
            pm == result_models(parsed@),
            nm == names.deep_view(),
            pm.len() == parsed.len(),
            cutoff.wf(),
            forall|k: int|
                0 <= k < parsed@.len() ==> (#[trigger] parsed@[k] matches Ok(a) ==> a.date.wf()),
            article_models(r@) == correlated(pm.take(i as int), *cutoff, nm),
        decreases parsed.len() - i,
    {
        proof {
            assert(pm.take(i + 1).last() == pm[i as int]);
            assert(pm.take(i + 1).drop_last() =~= pm.take(i as int));
        }
        match &parsed[i] {
            Ok(a) => {
                if a.date.is_before(cutoff) && title_has_match(&a.title, names) {
                    r.push(a.duplicate());
                    proof {
                        assert(article_models(r@) =~= correlated(pm.take(i + 1), *cutoff, nm));
                    }
                } else {
                    proof {
                        assert(article_models(r@) =~= correlated(pm.take(i + 1), *cutoff, nm));
                    }
                }
            },
            Err(_) => {
                proof {
                    assert(article_models(r@) =~= correlated(pm.take(i + 1), *cutoff, nm));
                }
            },
        }
        i += 1;
    }
    proof {
        assert(pm.take(parsed.len() as int) =~= pm);
    }
    r
}

/// Correlation is referentially transparent: the outcome is a function of
/// the parse outcomes, the cutoff and the names alone, so running the
/// join twice on identical inputs yields identical output.
pub proof fn lemma_correlate_deterministic(
    parsed: Seq<Result<ArticleModel, ParseError>>,
    cutoff: Timestamp,
    names: Seq<Seq<char>>,
    r1: Seq<ArticleModel>,
    r2: Seq<ArticleModel>,
)
    requires
        r1 == correlated(parsed, cutoff, names),
        r2 == correlated(parsed, cutoff, names),
    ensures
        r1 == r2,
{
}

} // verus!
