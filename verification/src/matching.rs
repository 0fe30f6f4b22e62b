//! What is handed to the fuzzy matcher, what it hands back, and what becomes of it.

use crate::score::{unsigned_scores_compare_by_their_patterns, Score};
use crate::text::{
    any_capital_counts, contains_capital, has_capital, is_white_space, trimmed_start,
    trimming_the_start_takes_white_space_only, trimming_twice_is_trimming_once, uppercase_property,
};
use vstd::prelude::*;

verus! {

/// At most this many matches are asked for.
pub const MAX_MATCHES: usize = 100;

/// A text that a query is matched against, and the number by which a match names it.
pub struct StringMatchCandidate {
    pub id: usize,
    pub string: String,
}

/// A candidate that the query matched: how well, and at which positions of its text.
pub struct StringMatch {
    pub candidate_id: usize,
    pub score: Score,
    pub positions: Vec<usize>,
    pub string: String,
}

/// One call of the fuzzy matcher.
pub struct MatchRequest {
    pub candidates: Vec<StringMatchCandidate>,
    pub query: String,
    /// Capital letters are told from small ones.
    pub smart_case: bool,
    /// Of two candidates that match equally well the shorter one scores higher.
    pub penalize_length: bool,
    pub max_results: usize,
}

impl MatchRequest {
    /// Whether this request asks for what the user typed as `query`: the leading white space is
    /// not part of it, and case counts where it holds a capital letter.
    pub open spec fn asks_for(self, query: Seq<char>) -> bool {
        &&& self.query@ == trimmed_start(query)
        &&& self.smart_case == has_capital(trimmed_start(query))
        &&& self.penalize_length
        &&& self.max_results == MAX_MATCHES
    }

    /// Whether the candidates of this request are `names`, each numbered by its place.
    pub open spec fn offers(self, names: Seq<Seq<char>>) -> bool {
        &&& self.candidates@.len() == names.len()
        &&& forall|i: int|
            0 <= i < names.len() ==> (#[trigger] self.candidates@[i]).id == i
                && self.candidates@[i].string@ == names[i]
    }
}

/// The request for what the user typed as `query` among `candidates`.
pub fn match_request(candidates: Vec<StringMatchCandidate>, query: &str) -> (request: MatchRequest)
    ensures
        request.candidates == candidates,
        request.asks_for(query@),
{
    let query = query.trim_start();
    let smart_case = contains_capital(query);
    MatchRequest {
        candidates,
        query: query.to_owned(),
        smart_case,
        penalize_length: true,
        max_results: MAX_MATCHES,
    }
}

/// White space in front of what the user types makes no difference.
pub proof fn leading_white_space_is_ignored(request: MatchRequest, query: Seq<char>)
    ensures
        request.asks_for(query) == request.asks_for(trimmed_start(query)),
{
    trimming_twice_is_trimming_once(query);
}

/// Whether `matches` names only candidates with a number under `count`.
pub open spec fn name_candidates(matches: Seq<StringMatch>, count: nat) -> bool {
    forall|i: int| 0 <= i < matches.len() ==> (#[trigger] matches[i]).candidate_id < count
}

/// Whether `index` is the first place at which the best score of `matches` stands. Where there
/// are no matches it is zero.
pub open spec fn is_best(matches: Seq<StringMatch>, index: int) -> bool {
    if matches.len() == 0 {
        index == 0
    } else {
        &&& 0 <= index < matches.len()
        &&& forall|j: int|
            0 <= j < matches.len() ==> !matches[index].score.below((#[trigger] matches[j]).score)
        &&& forall|j: int| 0 <= j < index ==> (#[trigger] matches[j]).score.below(
            matches[index].score,
        )
    }
}

/// The first place at which the best score stands.
pub fn best_match(matches: &Vec<StringMatch>) -> (index: usize)
    ensures
        is_best(matches@, index as int),
{
    let mut best: usize = 0;
    let mut i: usize = 1;
    while i < matches.len()
        invariant
            1 <= i,
            matches@.len() > 0 ==> i <= matches@.len(),
            matches@.len() > 0 ==> best < i,
            matches@.len() == 0 ==> best == 0,
            matches@.len() > 0 ==> is_best(matches@.take(i as int), best as int),
        decreases matches@.len() - i,
    {
        let ghost seen = matches@.take(i as int);
        if matches[best].score.is_below(matches[i].score) {
            best = i;
        }
        i += 1;
        assert(matches@.take(i as int) == seen.push(matches@[i - 1]));
        assert(matches@.take(i as int)[i - 1] == matches@[i - 1]);
        assert(forall|j: int| 0 <= j < i - 1 ==> matches@.take(i as int)[j] == seen[j]);
    }
    assert(matches@.len() > 0 ==> matches@.take(i as int) == matches@);
    best
}

/// Two places that are best are the same place.
pub proof fn best_is_unique(matches: Seq<StringMatch>, i: int, j: int)
    requires
        is_best(matches, i),
        is_best(matches, j),
    ensures
        i == j,
{
    if matches.len() > 0 {
        assert(matches[i].score.below(matches[j].score) || i >= j);
        assert(matches[j].score.below(matches[i].score) || j >= i);
    }
}

/// Whether `a` is listed before `b`: the higher score first, and of scores that are neither
/// higher nor lower than one another the lower candidate number first.
pub open spec fn listed_before(a: StringMatch, b: StringMatch) -> bool {
    ||| b.score.less(a.score)
    ||| !a.score.less(b.score) && a.candidate_id < b.candidate_id
}

/// Whether `a` is listed before `b`.
pub fn is_listed_before(a: &StringMatch, b: &StringMatch) -> (before: bool)
    ensures
        before == listed_before(*a, *b),
{
    b.score.is_less(a.score) || !a.score.is_less(b.score) && a.candidate_id < b.candidate_id
}

/// Whether all scores of `matches` are numbers.
pub open spec fn scores_are_numbers(matches: Seq<StringMatch>) -> bool {
    forall|i: int| 0 <= i < matches.len() ==> !(#[trigger] matches[i]).score.is_nan_spec()
}

/// Whether no match is listed before one that stands ahead of it.
pub open spec fn is_listing(matches: Seq<StringMatch>) -> bool {
    forall|i: int, j: int|
        0 <= i < j < matches.len() ==> !listed_before(#[trigger] matches[j], #[trigger] matches[i])
}

proof fn lemma_remove_to_multiset<A>(s: Seq<A>, i: int)
    requires
        0 <= i < s.len(),
    ensures
        s.remove(i).to_multiset().insert(s[i]) == s.to_multiset(),
{
    assert(s.remove(i).insert(i, s[i]) == s);
    vstd::seq_lib::to_multiset_insert(s.remove(i), i, s[i]);
}

/// On scores that are numbers, a listing with one more match put in behind those that are listed
/// before it, and ahead of one that is not, is a listing.
proof fn lemma_listing_insert(listed: Seq<StringMatch>, at: int, next: StringMatch, i: int, j: int)
    requires
        scores_are_numbers(listed),
        !next.score.is_nan_spec(),
        is_listing(listed),
        0 <= at <= listed.len(),
        forall|k: int| 0 <= k < at ==> listed_before(#[trigger] listed[k], next),
        at < listed.len() ==> !listed_before(listed[at], next),
        0 <= i < j <= listed.len(),
    ensures
        !listed_before(listed.insert(at, next)[j], listed.insert(at, next)[i]),
{
    let longer = listed.insert(at, next);
    if i < at {
        assert(longer[i] == listed[i]);
        assert(listed_before(listed[i], next));
        if j > at {
            assert(longer[j] == listed[j - 1]);
        }
    } else if i == at {
        assert(longer[j] == listed[j - 1]);
        assert(!listed_before(listed[at], next));
        if j - 1 > at {
            assert(!listed_before(listed[j - 1], listed[at]));
        }
    } else {
        assert(longer[i] == listed[i - 1]);
        assert(longer[j] == listed[j - 1]);
    }
}

/// `matches` in the order in which they are listed.
pub fn listing(matches: Vec<StringMatch>) -> (listed: Vec<StringMatch>)
    ensures
        listed@.to_multiset() == matches@.to_multiset(),
        listed@.len() == matches@.len(),
        scores_are_numbers(matches@) ==> is_listing(listed@),
        scores_are_numbers(matches@) ==> scores_are_numbers(listed@),
{
    let ghost all = matches@;
    let mut rest = matches;
    let mut listed: Vec<StringMatch> = Vec::new();
    assert(listed@.to_multiset().add(rest@.to_multiset()) =~= all.to_multiset()) by {
        broadcast use vstd::seq_lib::group_to_multiset_ensures;

        assert(listed@.to_multiset().len() == 0);
    }
    while rest.len() > 0
        invariant
            listed@.to_multiset().add(rest@.to_multiset()) == all.to_multiset(),
            listed@.len() + rest@.len() == all.len(),
            scores_are_numbers(all) ==> scores_are_numbers(rest@),
            scores_are_numbers(all) ==> scores_are_numbers(listed@),
            scores_are_numbers(all) ==> is_listing(listed@),
        decreases rest@.len(),
    {
        let ghost unlisted = rest@;
        let last: usize = rest.len() - 1;
        let next = rest.remove(last);
        let mut at: usize = 0;
        while at < listed.len() && is_listed_before(&listed[at], &next)
            invariant
                at <= listed@.len(),
                forall|j: int| 0 <= j < at ==> listed_before(#[trigger] listed@[j], next),
            decreases listed@.len() - at,
        {
            at += 1;
        }
        let ghost before = listed@;
        listed.insert(at, next);
        proof {
            vstd::seq_lib::to_multiset_insert(before, at as int, next);
            lemma_remove_to_multiset(unlisted, last as int);
            assert(listed@.to_multiset().add(rest@.to_multiset()) =~= before.to_multiset().add(
                unlisted.to_multiset(),
            ));
            if scores_are_numbers(all) {
                assert(unlisted[last as int] == next);
                assert forall|i: int| 0 <= i < listed@.len() implies !(
                #[trigger] listed@[i]).score.is_nan_spec() by {
                    if i < at {
                        assert(listed@[i] == before[i]);
                    } else if i > at {
                        assert(listed@[i] == before[i - 1]);
                    }
                }
                assert forall|i: int, j: int| 0 <= i < j < listed@.len() implies !listed_before(
                    #[trigger] listed@[j],
                    #[trigger] listed@[i],
                ) by {
                    lemma_listing_insert(before, at as int, next, i, j);
                }
            }
        }
    }
    assert(rest@ == Seq::<StringMatch>::empty());
    assert(listed@.to_multiset() =~= all.to_multiset()) by {
        broadcast use vstd::seq_lib::group_to_multiset_ensures;

        assert(rest@.to_multiset().len() == 0);
    }
    listed
}

/// A listing of scores that are numbers has its best match in front.
pub proof fn listing_starts_with_best(listed: Seq<StringMatch>)
    requires
        is_listing(listed),
        scores_are_numbers(listed),
    ensures
        is_best(listed, 0),
{
    assert forall|j: int| 0 <= j < listed.len() implies !listed[0].score.below(
        (#[trigger] listed[j]).score,
    ) by {
        if j > 0 {
            assert(!listed_before(listed[j], listed[0]));
        }
    }
}

/// Whether no two of `matches` name the same candidate.
pub open spec fn candidates_differ(matches: Seq<StringMatch>) -> bool {
    forall|i: int, j: int|
        0 <= i < j < matches.len() ==> (#[trigger] matches[i]).candidate_id != (
        #[trigger] matches[j]).candidate_id
}

/// Matches of different candidates, with scores that are numbers, can be listed in one way only.
pub proof fn listing_is_unique(a: Seq<StringMatch>, b: Seq<StringMatch>)
    requires
        a.to_multiset() == b.to_multiset(),
        scores_are_numbers(a),
        candidates_differ(a),
        is_listing(a),
        is_listing(b),
    ensures
        a == b,
    decreases a.len(),
{
    broadcast use vstd::seq_lib::group_to_multiset_ensures;

    assert(a.len() == a.to_multiset().len() == b.to_multiset().len() == b.len());
    if a.len() > 0 {
        assert(b.contains(a[0])) by {
            assert(a.contains(a[0]));
            assert(a.to_multiset().count(a[0]) > 0);
        }
        assert(a.contains(b[0])) by {
            assert(b.contains(b[0]));
            assert(b.to_multiset().count(b[0]) > 0);
        }
        let k = choose|k: int| 0 <= k < b.len() && b[k] == a[0];
        let m = choose|m: int| 0 <= m < a.len() && a[m] == b[0];
        assert(k > 0 ==> !listed_before(b[k], b[0]));
        assert(m > 0 ==> !listed_before(a[m], a[0]));
        assert(a[0].candidate_id == a[m].candidate_id);
        assert(a[0] == b[0]);
        let rest_a = a.remove(0);
        let rest_b = b.remove(0);
        assert(rest_a.to_multiset() == rest_b.to_multiset());
        assert(forall|i: int| 0 <= i < rest_a.len() ==> rest_a[i] == a[i + 1]);
        assert(forall|i: int| 0 <= i < rest_b.len() ==> rest_b[i] == b[i + 1]);
        listing_is_unique(rest_a, rest_b);
        assert(a == seq![a[0]] + rest_a);
        assert(b == seq![b[0]] + rest_b);
    } else {
        assert(a == b);
    }
}

/// The matcher is asked for what is typed, without the white space in front of it. Case counts if a
/// capital letter is among it. At most a hundred matches are asked for, with shorter ones ahead.
pub proof fn request_asks_for_what_is_typed(
    candidates: Vec<StringMatchCandidate>,
    typed: &str,
    blanks: Seq<char>,
    query: Seq<char>,
    request: MatchRequest,
)
    requires
        typed@ == blanks + query,
        forall|i: int| 0 <= i < blanks.len() ==> is_white_space(#[trigger] blanks[i]),
        query.len() > 0 ==> !is_white_space(query.first()),
        call_ensures(match_request, (candidates, typed), request),
    ensures
        request.candidates == candidates,
        request.query@ == query,
        request.smart_case <==> exists|i: int|
            0 <= i < query.len() && ('A' <= #[trigger] query[i] <= 'Z' || query[i] > '\u{7f}'
                && uppercase_property(query[i])),
        request.penalize_length,
        request.max_results == 100,
{
    request_is_for_the_query(request, blanks, query);
}

/// A request for what is typed is one for the query behind the white space.
pub proof fn request_is_for_the_query(request: MatchRequest, blanks: Seq<char>, query: Seq<char>)
    requires
        request.asks_for(blanks + query),
        forall|i: int| 0 <= i < blanks.len() ==> is_white_space(#[trigger] blanks[i]),
        query.len() > 0 ==> !is_white_space(query.first()),
    ensures
        request.query@ == query,
        request.smart_case <==> exists|i: int|
            0 <= i < query.len() && ('A' <= #[trigger] query[i] <= 'Z' || query[i] > '\u{7f}'
                && uppercase_property(query[i])),
        request.penalize_length,
        request.max_results == 100,
{
    trimming_the_start_takes_white_space_only(blanks, query);
    any_capital_counts(query);
}

/// A request that offers names has one candidate for each of them, numbered by its place.
pub proof fn candidates_are_numbered_by_place(request: MatchRequest, names: Seq<Seq<char>>, i: int)
    requires
        request.offers(names),
    ensures
        request.candidates@.len() == names.len(),
        0 <= i < names.len() ==> request.candidates@[i].id == i && request.candidates@[i].string@
            == names[i],
{
}

/// Whether the scores of `matches` are numbers without a sign, as scores of a matcher are.
pub open spec fn scores_are_unsigned(matches: Seq<StringMatch>) -> bool {
    forall|i: int|
        0 <= i < matches.len() ==> (#[trigger] matches[i]).score.bits <= 0x7ff0_0000_0000_0000
}

/// No match scores higher than the best one, and those ahead of it score lower. Without any matches
/// the place of the best one is zero.
pub proof fn best_match_scores_highest(matches: Vec<StringMatch>, index: usize, j: int)
    requires
        scores_are_unsigned(matches@),
        call_ensures(best_match, (&matches,), index),
    ensures
        matches@.len() == 0 ==> index == 0,
        matches@.len() > 0 ==> index < matches@.len(),
        0 <= j < matches@.len() ==> matches@[j].score.bits <= matches@[index as int].score.bits,
        0 <= j < index ==> matches@[j].score.bits < matches@[index as int].score.bits,
{
    best_has_the_greatest_pattern(matches@, index as int, j);
}

/// The pattern of the best score is the greatest, and stands there for the first time.
pub proof fn best_has_the_greatest_pattern(matches: Seq<StringMatch>, index: int, j: int)
    requires
        scores_are_unsigned(matches),
        is_best(matches, index),
    ensures
        matches.len() == 0 ==> index == 0,
        matches.len() > 0 ==> 0 <= index < matches.len(),
        0 <= j < matches.len() ==> matches[j].score.bits <= matches[index].score.bits,
        0 <= j < index ==> matches[j].score.bits < matches[index].score.bits,
{
    if 0 <= j < matches.len() {
        unsigned_scores_compare_by_their_patterns(matches[index].score, matches[j].score);
        unsigned_scores_compare_by_their_patterns(matches[j].score, matches[index].score);
    }
}

/// Whatever the scores are, none of them is greater than the best one, and none ahead of it is
/// as good. What is no number counts as the best of all.
pub proof fn nothing_is_better_than_the_best(
    matches: Vec<StringMatch>,
    index: usize,
    j: int,
    better: bool,
    worse: bool,
)
    requires
        0 <= j < matches@.len(),
        call_ensures(best_match, (&matches,), index),
        call_ensures(Score::is_below, (matches@[index as int].score, matches@[j].score), better),
        call_ensures(Score::is_below, (matches@[j].score, matches@[index as int].score), worse),
    ensures
        index < matches@.len(),
        !better,
        j < index ==> worse,
{
}

/// Matches are listed with the higher scores ahead, and among equal scores with the lower candidate
/// numbers ahead.
pub proof fn listing_goes_by_score_and_number(
    matches: Vec<StringMatch>,
    listed: Vec<StringMatch>,
    i: int,
    j: int,
)
    requires
        scores_are_unsigned(matches@),
        call_ensures(listing, (matches,), listed),
        0 <= i < j < listed@.len(),
    ensures
        listed@.to_multiset() == matches@.to_multiset(),
        listed@[i].score.bits >= listed@[j].score.bits,
        listed@[i].score.bits == listed@[j].score.bits ==> listed@[i].candidate_id
            <= listed@[j].candidate_id,
{
    lemma_unsigned_are_numbers(matches@);
    unsigned_scores_stay_unsigned(matches@, listed@);
    listed_matches_go_by_score_and_number(listed@, i, j);
}

proof fn lemma_unsigned_are_numbers(matches: Seq<StringMatch>)
    requires
        scores_are_unsigned(matches),
    ensures
        scores_are_numbers(matches),
{
    assert forall|i: int| 0 <= i < matches.len() implies !(
    #[trigger] matches[i]).score.is_nan_spec() by {
        unsigned_scores_compare_by_their_patterns(matches[i].score, matches[i].score);
    }
}

/// Matches whose scores are without a sign are numbers, and stay so in any other order.
pub proof fn unsigned_scores_stay_unsigned(matches: Seq<StringMatch>, listed: Seq<StringMatch>)
    requires
        scores_are_unsigned(matches),
        listed.to_multiset() == matches.to_multiset(),
    ensures
        scores_are_numbers(matches),
        scores_are_unsigned(listed),
{
    broadcast use vstd::seq_lib::group_to_multiset_ensures;

    lemma_unsigned_are_numbers(matches);
    assert forall|i: int| 0 <= i < listed.len() implies (#[trigger] listed[i]).score.bits
        <= 0x7ff0_0000_0000_0000 by {
        assert(listed.contains(listed[i]));
        assert(listed.to_multiset().count(listed[i]) > 0);
        assert(matches.contains(listed[i]));
    }
}

/// In a listing the higher scores stand ahead, and among equal scores the lower candidate numbers.
pub proof fn listed_matches_go_by_score_and_number(listed: Seq<StringMatch>, i: int, j: int)
    requires
        scores_are_unsigned(listed),
        is_listing(listed),
        0 <= i < j < listed.len(),
    ensures
        listed[i].score.bits >= listed[j].score.bits,
        listed[i].score.bits == listed[j].score.bits ==> listed[i].candidate_id
            <= listed[j].candidate_id,
{
    unsigned_scores_compare_by_their_patterns(listed[i].score, listed[j].score);
    unsigned_scores_compare_by_their_patterns(listed[j].score, listed[i].score);
    assert(!listed_before(listed[j], listed[i]));
}

/// Of two matches the one with the higher score is listed ahead, and of two with equal scores the one
/// with the lower candidate number. What is no number is neither higher nor lower.
pub proof fn higher_scores_are_listed_ahead(
    a: StringMatch,
    b: StringMatch,
    lower: bool,
    higher: bool,
    before: bool,
)
    requires
        call_ensures(Score::is_less, (a.score, b.score), lower),
        call_ensures(Score::is_less, (b.score, a.score), higher),
        call_ensures(is_listed_before, (&a, &b), before),
    ensures
        higher ==> before,
        lower && !higher ==> !before,
        !lower && !higher ==> (before <==> a.candidate_id < b.candidate_id),
{
}

/// Among matches whose scores are numbers, with or without a sign, none is listed ahead of one with a
/// higher score, nor ahead of one with an equal score and a lower candidate number.
pub proof fn nothing_is_listed_ahead_of_a_better_match(
    matches: Vec<StringMatch>,
    listed: Vec<StringMatch>,
    i: int,
    j: int,
    lower: bool,
    higher: bool,
)
    requires
        forall|k: int|
            0 <= k < matches@.len() ==> (#[trigger] matches@[k]).score.bits
                <= 0x7ff0_0000_0000_0000 || 0x8000_0000_0000_0000 <= matches@[k].score.bits
                <= 0xfff0_0000_0000_0000,
        call_ensures(listing, (matches,), listed),
        0 <= i < j < listed@.len(),
        call_ensures(Score::is_less, (listed@[i].score, listed@[j].score), lower),
        call_ensures(Score::is_less, (listed@[j].score, listed@[i].score), higher),
    ensures
        !lower,
        !higher ==> listed@[i].candidate_id <= listed@[j].candidate_id,
{
    assert(scores_are_numbers(matches@));
    assert(!listed_before(listed@[j], listed@[i]));
}

} // verus!
