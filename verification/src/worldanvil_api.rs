//! The vendor listing API's payload shapes and the decisions the paginated
//! fetch makes; the HTTP requests themselves live outside the library.

use vstd::prelude::*;
use vstd::seq_lib::*;

verus! {

/// Visibility of a vendor entity.
#[derive(Clone, Copy, PartialEq, Eq, Structural, Debug)]
pub enum State {
    Public,
    Private,
}

/// The vendor's entity taxonomy.
#[derive(Clone, Copy, PartialEq, Eq, Structural, Debug)]
pub enum EntityClass {
    Ethnicity,
    Article,
    Landmark,
    Location,
    Ritual,
    Myth,
    Technology,
    Spell,
    Law,
    Prose,
    MilitaryConflict,
    Language,
    Document,
    Person,
    Organization,
    Plot,
    Species,
    Vehicle,
    Profession,
    Item,
    Formation,
    Rank,
    Condition,
    Material,
    Settlement,
    Report,
}

/// A vendor timestamp: the raw text with its zone bookkeeping.
#[derive(Clone, Debug)]
pub struct Date {
    pub date: String,
    pub timezone_type: i32,
    pub timezone: String,
}

/// Ignored group payload of a listing entry.
#[derive(Debug)]
pub struct SubscriberGroup {}

/// One listed article of a world.
#[derive(Debug)]
pub struct Article {
    pub id: String,
    pub title: String,
    pub slug: String,
    pub state: State,
    pub is_wip: bool,
    pub is_draft: bool,
    pub entity_class: EntityClass,
    pub icon: String,
    pub url: String,
    pub folder_id: String,
    pub tags: Option<String>,
    pub update_date: Date,
    pub subscribergroups: Vec<SubscriberGroup>,
    pub position: Option<i64>,
}

/// One page of the article listing.
pub struct WorldArticlesResponse {
    pub success: bool,
    pub entities: Vec<Article>,
}

/// A body containing "limit" and "offset", very common in the vendor API.
#[derive(Clone, Copy, PartialEq, Eq, Structural, Debug)]
pub struct LimitOffsetBody {
    pub limit: i64,
    pub offset: i64,
}

/// The identity the vendor reports for an accepted key.
#[derive(Debug)]
pub struct IdentityBody {
    pub id: String,
    pub success: bool,
    pub username: String,
    pub userhash: String,
}

/// The vendor's error payload.
#[derive(Debug)]
pub struct ErrorBody {
    pub success: bool,
    pub error: String,
}

/// Whether a key identified a user.
pub enum IdentityResult {
    Identified(IdentityBody),
    NotIdentified(ErrorBody),
}

/// One listed world of a user.
#[derive(Debug)]
pub struct World {
    pub id: String,
    pub title: String,
    pub slug: String,
    pub state: State,
    pub is_wip: Option<bool>,
    pub is_draft: Option<bool>,
    pub entity_class: String,
}

/// One page of the worlds listing.
pub struct WorldsForUserResponse {
    pub success: bool,
    pub entities: Vec<World>,
}

/// The predicate keeping listed articles that are not drafts.
pub open spec fn not_draft() -> spec_fn(Article) -> bool {
    |a: Article| !a.is_draft
}

/// The page size the listing is fetched with.
pub const LISTING_PAGE_SIZE: usize = 50;

/// Absorb one fetched page of the article listing: keep its non-draft
/// entries, in order, and report whether this was the final page (fewer
/// entries than the page size mean the listing is exhausted).
pub fn absorb_article_page(items: &mut Vec<Article>, page: Vec<Article>) -> (done: bool)
    ensures
        final(items)@ == old(items)@ + page@.filter(not_draft()),
        done == (page@.len() < LISTING_PAGE_SIZE),
{
    let done = page.len() < LISTING_PAGE_SIZE;
    let n = page.len();
    let ghost orig = page@;
    let ghost base = items@;
    let mut page = page;
    let mut taken: usize = 0;
    proof {
        reveal(Seq::filter);
        assert(orig.take(0) =~= Seq::<Article>::empty());
        assert(items@ =~= base + orig.take(0).filter(not_draft()));
    }
    while page.len() > 0
        invariant
            n == orig.len(),
            taken <= n,
            page@ =~= orig.skip(taken as int),
            items@ == base + orig.take(taken as int).filter(not_draft()),
        decreases page@.len(),
    {
        proof {
            assert(taken < orig.len());
            reveal(Seq::filter);
            assert(orig.take(taken + 1).drop_last() =~= orig.take(taken as int));
            assert(orig.take(taken + 1).last() == orig[taken as int]);
            assert(page@[0] == orig[taken as int]);
        }
        let a = page.remove(0);
        if !a.is_draft {
            items.push(a);
            proof {
                assert(items@ =~= base + orig.take(taken + 1).filter(not_draft()));
            }
        }
        proof {
            assert(page@ =~= orig.skip(taken + 1));
        }
        taken += 1;
    }
    proof {
        assert(orig.take(orig.len() as int) =~= orig);
    }
    done
}

/// How an identity probe's HTTP status is interpreted.
#[derive(Clone, Copy, PartialEq, Eq, Structural, Debug)]
pub enum IdentityStatusKind {
    Identified,
    NotIdentified,
    Unexpected,
}

/// Classify the identity endpoint's status: an OK response carries an
/// identity, an unauthorized one carries the vendor's error payload, and
/// anything else is unexpected.
pub fn classify_identity_status(status: u16) -> (r: IdentityStatusKind)
    ensures
        r == IdentityStatusKind::Identified <==> status == 200,
        r == IdentityStatusKind::NotIdentified <==> status == 401,
        r == IdentityStatusKind::Unexpected <==> (status != 200 && status != 401),
{
    if status == 200 {
        IdentityStatusKind::Identified
    } else if status == 401 {
        IdentityStatusKind::NotIdentified
    } else {
        IdentityStatusKind::Unexpected
    }
}

/// Split a fetched listing into the columns the article registration
/// takes: URLs, titles and external identifiers, in listing order.
pub fn split_article_fields(articles: Vec<Article>) -> (r: (Vec<String>, Vec<String>, Vec<String>))
    ensures
        r.0@.len() == articles@.len(),
        r.1@.len() == articles@.len(),
        r.2@.len() == articles@.len(),
        forall|k: int|
            0 <= k < articles@.len() ==> (#[trigger] r.0@[k]) == articles@[k].url && r.1@[k]
                == articles@[k].title && r.2@[k] == articles@[k].id,
{
    let n = articles.len();
    let ghost orig = articles@;
    let mut articles = articles;
    let mut urls: Vec<String> = Vec::new();
    let mut titles: Vec<String> = Vec::new();
    let mut ids: Vec<String> = Vec::new();
    let mut taken: usize = 0;
    while articles.len() > 0
        invariant
            n == orig.len(),
            taken <= n,
            articles@ =~= orig.skip(taken as int),
            urls@.len() == taken,
            titles@.len() == taken,
            ids@.len() == taken,
            forall|k: int|
                0 <= k < taken ==> (#[trigger] urls@[k]) == orig[k].url && titles@[k]
                    == orig[k].title && ids@[k] == orig[k].id,
        decreases articles@.len(),
    {
        proof {
            assert(taken < orig.len());
            assert(articles@[0] == orig[taken as int]);
        }
        let a = articles.remove(0);
        let Article { id, title, url, .. } = a;
        urls.push(url);
        titles.push(title);
        ids.push(id);
        proof {
            assert(articles@ =~= orig.skip(taken + 1));
        }
        taken += 1;
    }
    proof {
        assert(taken == n);
        assert forall|k: int| 0 <= k < orig.len() implies (#[trigger] urls@[k]) == orig[k].url
            && titles@[k] == orig[k].title && ids@[k] == orig[k].id by {}
    }
    (urls, titles, ids)
}

} // verus!
