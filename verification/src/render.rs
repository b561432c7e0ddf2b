use vstd::prelude::*;
use vstd::string::*;
use crate::data_ingestor::{Ranking, RankingView, Reply, ReplyView};
use crate::grouping::{views, Grouping, Key, Series, SeriesView};
use crate::json_text::{json_object, object_text, zip_members, Member};
use crate::scoring::{scored_views, ScoredView};

verus! {

/// A category and a stratum as one name.
pub open spec fn pair_text(a: Seq<char>, b: Seq<char>) -> Seq<char> {
    "('"@ + a + "', '"@ + b + "')"@
}

/// A location, a category and a stratum as one name.
pub open spec fn triple_text(a: Seq<char>, b: Seq<char>, c: Seq<char>) -> Seq<char> {
    "('"@ + a + "', '"@ + b + "', '"@ + c + "')"@
}

/// The name under which a series stands in the answer.
pub open spec fn member_name(g: Grouping, key: Key) -> Seq<char> {
    match g {
        Grouping::All => "global_mean"@,
        Grouping::State => key.0,
        Grouping::LocationCategory => triple_text(key.0, key.1, key.2),
        Grouping::Category => pair_text(key.1, key.2),
    }
}

/// Writes the name under which a series stands in the answer.
pub fn series_name(g: Grouping, s: &Series) -> (name: String)
    ensures
        name@ == member_name(g, s.key()),
{
    match g {
        Grouping::All => String::from_str("global_mean"),
        Grouping::State => s.location.clone(),
        Grouping::LocationCategory => {
            let mut name = String::from_str("('");
            name.append(s.location.as_str());
            name.append("', '");
            name.append(s.category.as_str());
            name.append("', '");
            name.append(s.stratum.as_str());
            name.append("')");
            name
        },
        Grouping::Category => {
            let mut name = String::from_str("('");
            name.append(s.category.as_str());
            name.append("', '");
            name.append(s.stratum.as_str());
            name.append("')");
            name
        },
    }
}

/// The members of the object that a reply with series stands for, given the
/// text of each series' mean.
pub open spec fn mean_members(g: Grouping, groups: Seq<SeriesView>, texts: Seq<String>) -> Seq<
    Member,
> {
    Seq::new(groups.len(), |i: int| (member_name(g, groups[i].key), texts[i]@))
}

/// The text of a reply, given the text of each series' mean.
pub open spec fn reply_text(reply: ReplyView, texts: Seq<String>) -> Seq<char> {
    match reply {
        ReplyView::Text(t) => t,
        ReplyView::Means(g, groups) => object_text(mean_members(g, groups, texts)),
    }
}

/// The members of the object that ranked entries stand for, given the text of
/// each entry's score.
pub open spec fn score_members(entries: Seq<ScoredView>, texts: Seq<String>) -> Seq<Member> {
    Seq::new(entries.len(), |i: int| (entries[i].state, texts[i]@))
}

/// The text of a ranking, given the text of each entry's score.
pub open spec fn ranking_text(ranking: RankingView, texts: Seq<String>) -> Seq<char> {
    match ranking {
        RankingView::Text(t) => t,
        RankingView::Entries(entries) => object_text(score_members(entries, texts)),
    }
}

/// Writes a reply out. `mean_texts` holds, for each series of the reply, its
/// mean as JSON text; a reply that is a text needs none.
pub fn render_reply(reply: &Reply, mean_texts: &Vec<String>) -> (text: String)
    requires
        reply@ matches ReplyView::Means(_, groups) ==> groups.len() == mean_texts.len(),
    ensures
        text@ == reply_text(reply@, mean_texts@),
{
    match reply {
        Reply::Text(t) => t.clone(),
        Reply::Means(g, groups) => {
            let mut names: Vec<String> = Vec::new();
            let mut n: usize = 0;
            while n < groups.len()
                invariant
                    n <= groups.len(),
                    names@.len() == n,
                    forall|i: int| 0 <= i < n ==> names@[i]@ == member_name(*g, groups@[i].key()),
                decreases groups.len() - n,
            {
                names.push(series_name(*g, &groups[n]));
                n += 1;
            }
            proof {
                assert(zip_members(names@, mean_texts@) =~= mean_members(
                    *g,
                    views(groups@),
                    mean_texts@,
                ));
            }
            json_object(&names, mean_texts)
        },
    }
}

/// Writes a ranking out. `score_texts` holds, for each entry of the ranking,
/// its score as JSON text; a ranking that is a text needs none.
pub fn render_ranking(ranking: &Ranking, score_texts: &Vec<String>) -> (text: String)
    requires
        ranking@ matches RankingView::Entries(entries) ==> entries.len() == score_texts.len(),
    ensures
        text@ == ranking_text(ranking@, score_texts@),
{
    match ranking {
        Ranking::Text(t) => t.clone(),
        Ranking::Entries(entries) => {
            let mut names: Vec<String> = Vec::new();
            let mut n: usize = 0;
            while n < entries.len()
                invariant
                    n <= entries.len(),
                    names@.len() == n,
                    forall|i: int| 0 <= i < n ==> names@[i]@ == entries@[i].state@,
                decreases entries.len() - n,
            {
                names.push(entries[n].state.clone());
                n += 1;
            }
            proof {
                assert(zip_members(names@, score_texts@) =~= score_members(
                    scored_views(entries@),
                    score_texts@,
                ));
            }
            json_object(&names, score_texts)
        },
    }
}

} // verus!
