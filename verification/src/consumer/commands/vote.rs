//! `vote`: a user votes for or against someone else's prediction.
use vstd::prelude::*;
use crate::consumer::common::{CommandError, get_option_value, get_memeber_user_id, option_lookup, member_user_id};
use crate::consumer::commands::{mention, make_mention, is_block_field, block_field, embed_parts};
use crate::discord::{CommandOptionValue, Embed, InteractionBody, ResponseData};
use crate::entity::prediction::Prediction;
use crate::entity::voter::Voter;
use crate::entity::generated::is_v4_uuid;
use crate::text::{concat2, owned};

verus! {

/// What a `vote` command asks for: who votes, on which prediction, and whether in favour.
#[derive(Debug)]
pub struct VoteRequest {
    pub user_id: String,
    pub prediction_id: String,
    pub vote: bool,
}

/// The voter, prediction id and vote of a `vote` command, or why they cannot
/// be read: the invoking user's id first, then the string option `id`, then
/// the boolean option `vote`.
pub open spec fn vote_request_spec(b: InteractionBody) -> Result<(Seq<char>, Seq<char>, bool), CommandError> {
    match member_user_id(b) {
        Err(e) => Err(e),
        Ok(uid) => match option_lookup(b, "id"@) {
            Err(e) => Err(e),
            Ok(CommandOptionValue::STRING(pid)) => match option_lookup(b, "vote"@) {
                Err(e) => Err(e),
                Ok(CommandOptionValue::BOOLEAN(v)) => Ok((uid, pid@, v)),
                Ok(_) => Err(CommandError::UnexpectedValueType),
            },
            Ok(_) => Err(CommandError::UnexpectedValueType),
        },
    }
}

/// The `vote` request of an interaction.
pub fn vote_request(b: &InteractionBody) -> (r: Result<VoteRequest, CommandError>)
    ensures
        match r {
            Ok(req) => vote_request_spec(*b) == Ok::<(Seq<char>, Seq<char>, bool), CommandError>((req.user_id@, req.prediction_id@, req.vote)),
            Err(e) => vote_request_spec(*b) == Err::<(Seq<char>, Seq<char>, bool), CommandError>(e),
        },
{
    let user_id = get_memeber_user_id(b)?;
    let prediction_id = match get_option_value(b, "id")?.string() {
        Some(s) => s.clone(),
        None => return Err(CommandError::UnexpectedValueType),
    };
    let vote = match get_option_value(b, "vote")?.boolean() {
        Some(v) => *v,
        None => return Err(CommandError::UnexpectedValueType),
    };
    Ok(VoteRequest { user_id, prediction_id, vote })
}

/// What the bot does next with a vote.
#[derive(Debug)]
pub enum VoteDecision {
    /// Answer without storing anything.
    Reply(ResponseData),
    /// Look up the votes the user already cast on the prediction.
    LookupVoters,
    /// Store the vote, then answer.
    Record(Voter, ResponseData),
}

/// A plain message.
pub open spec fn is_message(d: ResponseData, text: Seq<char>) -> bool {
    &&& d.flags is None
    &&& d.embeds is None
    &&& d.content matches Some(c) && c@ == text
}

/// The announcement of a vote: the message `voted` and an embed titled
/// `Vote`, green for a vote in favour and red against, describing who voted
/// how on whose prediction, with the prediction's condition and id.
pub open spec fn is_vote_response(d: ResponseData, voter: Seq<char>, vote: bool, owner: Seq<char>, condition: Seq<char>, prediction_id: Seq<char>) -> bool {
    &&& d.flags is None
    &&& d.content matches Some(c) && c@ == "voted"@
    &&& d.embeds matches Some(es) && {
        &&& es@.len() == 1
        &&& embed_parts(
            es@[0],
            "Vote"@,
            mention(voter) + " voted "@ + (if vote { "in favor of"@ } else { "against"@ }) + " "@ + mention(owner) + "'s prediction:"@,
            Some(if vote { 65280usize } else { 16711680usize }),
        )
        &&& es@[0].fields matches Some(fs) && {
            &&& fs@.len() == 2
            &&& is_block_field(fs@[0], "Condition(s)"@, condition)
            &&& is_block_field(fs@[1], "ID"@, prediction_id)
        }
    }
}

fn message(user_id: &str, rest: &str) -> (d: ResponseData)
    ensures
        is_message(d, mention(user_id@) + rest@),
{
    let m = make_mention(user_id);
    ResponseData { flags: None, content: Some(concat2(m.as_str(), rest)), embeds: None }
}

fn vote_response(req: &VoteRequest, owner: &String, condition: &String, prediction_id: &String) -> (d: ResponseData)
    ensures
        is_vote_response(d, req.user_id@, req.vote, owner@, condition@, prediction_id@),
{
    let how = if req.vote { owned("in favor of") } else { owned("against") };
    let color: usize = if req.vote { 65280 } else { 16711680 };
    let mut description = make_mention(req.user_id.as_str());
    description.append(" voted ");
    description.append(how.as_str());
    description.append(" ");
    let owner_mention = make_mention(owner.as_str());
    description.append(owner_mention.as_str());
    description.append("'s prediction:");
    let mut fields = Vec::new();
    fields.push(block_field("Condition(s)", condition.clone()));
    fields.push(block_field("ID", prediction_id.clone()));
    let mut embeds = Vec::new();
    embeds.push(Embed {
        title: Some(owned("Vote")),
        description: Some(description),
        color: Some(color),
        url: None,
        fields: Some(fields),
    });
    ResponseData { flags: None, content: Some(owned("voted")), embeds: Some(embeds) }
}

/// Whether the first prediction found was made by the voter.
pub open spec fn own_prediction(req: VoteRequest, predictions: Seq<Prediction>) -> bool {
    predictions[0].userid->0@ == req.user_id@
}

/// Whether a vote is stored: a prediction was found under its id, the voter
/// did not make it, and the voter has cast no vote on it yet.
pub open spec fn records_vote(req: VoteRequest, predictions: Seq<Prediction>, voters: Option<usize>) -> bool {
    predictions.len() > 0 && !own_prediction(req, predictions) && voters == Some(0usize)
}

/// What to do with a vote, given the predictions found under its id and, once
/// looked up, how many votes the user already cast on it: a vote on a missing
/// prediction, on one's own prediction, or a second vote is answered and not
/// stored; otherwise the voters are looked up, and once none is found the
/// vote is stored and announced.
pub fn vote_decision(req: &VoteRequest, predictions: &Vec<Prediction>, voters: Option<usize>) -> (d: VoteDecision)
    requires
        predictions@.len() > 0 ==> predictions@[0].userid is Some,
        predictions@.len() > 0 && !own_prediction(*req, predictions@) && voters == Some(0usize)
            ==> predictions@[0].predictionid is Some,
    ensures
        d is Record <==> records_vote(*req, predictions@, voters),
        predictions@.len() == 0 ==> (d matches VoteDecision::Reply(m)
            && is_message(m, mention(req.user_id@) + " voted on a nonexistent prediction."@)),
        predictions@.len() > 0 && own_prediction(*req, predictions@) ==> (d matches VoteDecision::Reply(m)
            && is_message(m, mention(req.user_id@) + " tried to vote on xis/xer own prediction."@)),
        predictions@.len() > 0 && !own_prediction(*req, predictions@) ==> match voters {
            None => d is LookupVoters,
            Some(n) => if n > 0 {
                (d matches VoteDecision::Reply(m) && is_message(m, mention(req.user_id@) + " tried to vote twice."@))
            } else {
                (d matches VoteDecision::Record(v, m) && {
                    let p = predictions@[0];
                    &&& v.predictionid matches Some(x) && x@ == req.prediction_id@
                    &&& v.userid matches Some(x) && x@ == req.user_id@
                    &&& v.vote == req.vote
                    &&& v.voterid matches Some(x) && is_v4_uuid(x@)
                    &&& is_vote_response(m, req.user_id@, req.vote, p.userid->0@, p.condition@, p.predictionid->0@)
                })
            },
        },
{
    if predictions.len() < 1 {
        return VoteDecision::Reply(message(req.user_id.as_str(), " voted on a nonexistent prediction."));
    }
    let prediction = &predictions[0];
    let owner = match &prediction.userid {
        Some(u) => u,
        None => return VoteDecision::LookupVoters,
    };
    if *owner == req.user_id {
        return VoteDecision::Reply(message(req.user_id.as_str(), " tried to vote on xis/xer own prediction."));
    }
    match voters {
        None => VoteDecision::LookupVoters,
        Some(n) => {
            if n > 0 {
                VoteDecision::Reply(message(req.user_id.as_str(), " tried to vote twice."))
            } else {
                let d = Voter::default();
                let voter = Voter {
                    voterid: d.voterid,
                    predictionid: Some(req.prediction_id.clone()),
                    userid: Some(req.user_id.clone()),
                    vote: req.vote,
                };
                let id = match &prediction.predictionid {
                    Some(id) => id,
                    None => return VoteDecision::LookupVoters,
                };
                VoteDecision::Record(voter, vote_response(req, owner, &prediction.condition, id))
            }
        },
    }
}

} // verus!

verus! {

/// The query for the prediction a vote is about, on the primary index: the
/// partition key `pk` must equal `$Glsst#User#predictionid_<id>` and the
/// sort key `sk` begin with `$User`.
pub fn vote_prediction_lookup(req: &VoteRequest) -> (plan: crate::request::QueryPlan)
    ensures
        crate::request::plan_matches(
            plan,
            crate::entity::glsst_info().table,
            "pk"@,
            "sk"@,
            crate::item::ValueView::S("$Glsst#User#predictionid_"@ + req.prediction_id@),
            crate::item::ValueView::S("$User"@),
            None,
        ),
{
    let d = Prediction::default();
    let p = Prediction {
        predictionid: Some(req.prediction_id.clone()),
        userid: d.userid,
        condition: d.condition,
        createdat: d.createdat,
    };
    proof {
        reveal_strlit("predictionid");
        reveal_strlit("userid");
        reveal_strlit("condition");
        reveal_strlit("createdat");
        reveal_strlit("$Glsst#User#predictionid_");
        reveal_strlit("$User");
        reveal_strlit("Glsst");
        reveal_strlit("User");
        let attrs = crate::entity::prediction::prediction_attributes(p);
        assert("predictionid"@.len() == 12 && "userid"@.len() == 6 && "condition"@.len() == 9 && "createdat"@.len() == 9);
        assert("condition"@[1] != "createdat"@[1]);
        assert(attrs["predictionid"@] == crate::entity::text_attribute(p.predictionid));
        let k = crate::entity::prediction::prediction_indexes()[0].1.partition_key;
        assert(k.composite.drop_last() =~= Seq::<Seq<char>>::empty());
        let j = crate::dynamo::joined_composite(k.composite, attrs);
        assert(crate::dynamo::joined_composite(k.composite.drop_last(), attrs) =~= Seq::<char>::empty());
        assert(k.composite.last() == "predictionid"@);
        assert(j =~= seq!['#'] + "predictionid"@ + seq!['_'] + req.prediction_id@);
        assert("$Glsst#User#predictionid_"@ =~= seq!['$'] + "Glsst"@ + seq!['#'] + "User"@ + seq!['#'] + "predictionid"@ + seq!['_']);
        assert(crate::dynamo::partition_value(crate::entity::glsst_info(), k, attrs)
            =~= "$Glsst#User#predictionid_"@ + req.prediction_id@);
        let ks = crate::entity::prediction::prediction_indexes()[0].1.sort_key;
        assert(crate::dynamo::sort_value(crate::entity::glsst_info(), ks, attrs) =~= "$User"@);
    }
    crate::entity::prediction::prediction_lookup(&p)
}

/// The query that looks for an earlier vote, as the bot builds it: on index
/// `gsi1`, with the primary key of a fresh vote, so the partition key `pk`
/// must equal `$Glsst#User#voterid_<id>` for a new random version 4 UUID
/// `<id>` and the sort key `sk` begin with `$User`.
pub fn vote_voter_lookup(req: &VoteRequest) -> (plan: crate::request::QueryPlan)
    ensures
        exists|id: Seq<char>| #[trigger] is_v4_uuid(id) && crate::request::plan_matches(
            plan,
            crate::entity::glsst_info().table,
            "pk"@,
            "sk"@,
            crate::item::ValueView::S("$Glsst#User#voterid_"@ + id),
            crate::item::ValueView::S("$User"@),
            Some("gsi1"@),
        ),
{
    let d = Voter::default();
    let v = Voter {
        voterid: d.voterid,
        predictionid: Some(req.prediction_id.clone()),
        userid: Some(req.user_id.clone()),
        vote: d.vote,
    };
    let key = crate::entity::voter::voter_key(&v);
    let info = crate::entity::make_glsst_info();
    proof {
        reveal_strlit("voterid");
        reveal_strlit("predictionid");
        reveal_strlit("userid");
        reveal_strlit("vote");
        reveal_strlit("$Glsst#User#voterid_");
        reveal_strlit("$User");
        reveal_strlit("Glsst");
        reveal_strlit("User");
        reveal_strlit("pk");
        reveal_strlit("sk");
        let id = v.voterid->0@;
        let attrs = crate::entity::voter::voter_attributes(v);
        assert("voterid"@.len() == 7 && "predictionid"@.len() == 12 && "userid"@.len() == 6 && "vote"@.len() == 4);
        assert(attrs["voterid"@] == crate::entity::text_attribute(v.voterid));
        let k = crate::entity::voter::voter_indexes()[0].1.partition_key;
        assert(k.composite.drop_last() =~= Seq::<Seq<char>>::empty());
        let j = crate::dynamo::joined_composite(k.composite, attrs);
        assert(crate::dynamo::joined_composite(k.composite.drop_last(), attrs) =~= Seq::<char>::empty());
        assert(k.composite.last() == "voterid"@);
        assert(j =~= seq!['#'] + "voterid"@ + seq!['_'] + id);
        assert("$Glsst#User#voterid_"@ =~= seq!['$'] + "Glsst"@ + seq!['#'] + "User"@ + seq!['#'] + "voterid"@ + seq!['_']);
        assert(crate::dynamo::partition_value(crate::entity::glsst_info(), k, attrs)
            =~= "$Glsst#User#voterid_"@ + id);
        let ks = crate::entity::voter::voter_indexes()[0].1.sort_key;
        assert(crate::dynamo::sort_value(crate::entity::glsst_info(), ks, attrs) =~= "$User"@);
        assert(is_v4_uuid(id));
    }
    proof { reveal_strlit("gsi1"); }
    crate::request::key_query(
        info.table.as_str(),
        key[0].0.as_str(),
        key[1].0.as_str(),
        key[0].1.duplicate(),
        key[1].1.duplicate(),
        Some(owned("gsi1")),
    )
}

} // verus!

verus! {

/// No user has two votes on the same prediction: the stored votes, as pairs
/// of user id and prediction id, are distinct.
pub open spec fn one_vote_each(votes: Seq<(Seq<char>, Seq<char>)>) -> bool {
    forall|i: int, j: int| 0 <= i < j < votes.len() ==> #[trigger] votes[i] != #[trigger] votes[j]
}

/// No user has voted on a prediction of their own: each stored vote is on a
/// prediction whose owner is another user.
pub open spec fn no_own_votes(votes: Seq<(Seq<char>, Seq<char>)>, owners: Map<Seq<char>, Seq<char>>) -> bool {
    forall|i: int| 0 <= i < votes.len() ==> {
        &&& owners.contains_key((#[trigger] votes[i]).1)
        &&& owners[votes[i].1] != votes[i].0
    }
}

/// How many of the stored votes are by `user` on `prediction`.
pub open spec fn votes_by(votes: Seq<(Seq<char>, Seq<char>)>, user: Seq<char>, prediction: Seq<char>) -> nat
    decreases votes.len(),
{
    if votes.len() == 0 {
        0
    } else {
        votes_by(votes.drop_last(), user, prediction) + if votes.last() == (user, prediction) { 1nat } else { 0nat }
    }
}

proof fn lemma_no_votes_by(votes: Seq<(Seq<char>, Seq<char>)>, user: Seq<char>, prediction: Seq<char>)
    requires
        votes_by(votes, user, prediction) == 0,
    ensures
        forall|i: int| 0 <= i < votes.len() ==> #[trigger] votes[i] != (user, prediction),
    decreases votes.len(),
{
    if votes.len() > 0 {
        lemma_no_votes_by(votes.drop_last(), user, prediction);
        assert forall|i: int| 0 <= i < votes.len() implies #[trigger] votes[i] != (user, prediction) by {
            if i < votes.len() - 1 {
                assert(votes.drop_last()[i] == votes[i]);
            }
        }
    }
}

/// Storing a vote keeps the stored votes consistent. Where the stored votes
/// hold at most one vote per user and prediction and none on the voter's own
/// prediction, `voters` counts the user's stored votes on the prediction, and
/// the prediction found under the vote's id has the owner that `owners`
/// records for that id, a vote that `vote_decision` stores (its voter has the
/// request's user id and prediction id) leaves both properties true.
pub proof fn lemma_recorded_vote_keeps_votes_consistent(
    req: VoteRequest,
    predictions: Seq<Prediction>,
    votes: Seq<(Seq<char>, Seq<char>)>,
    owners: Map<Seq<char>, Seq<char>>,
    voters: usize,
)
    requires
        one_vote_each(votes),
        no_own_votes(votes, owners),
        voters == votes_by(votes, req.user_id@, req.prediction_id@),
        predictions.len() > 0 ==> {
            &&& predictions[0].userid is Some
            &&& owners.contains_key(req.prediction_id@)
            &&& owners[req.prediction_id@] == predictions[0].userid->0@
        },
        records_vote(req, predictions, Some(voters)),
    ensures
        one_vote_each(votes.push((req.user_id@, req.prediction_id@))),
        no_own_votes(votes.push((req.user_id@, req.prediction_id@)), owners),
{
    let pair = (req.user_id@, req.prediction_id@);
    let after = votes.push(pair);
    lemma_no_votes_by(votes, req.user_id@, req.prediction_id@);
    assert forall|i: int, j: int| 0 <= i < j < after.len() implies #[trigger] after[i] != #[trigger] after[j] by {
        assert(after[i] == votes[i]);
        if j < votes.len() {
            assert(after[j] == votes[j]);
        }
    }
    assert forall|i: int| 0 <= i < after.len() implies {
        &&& owners.contains_key((#[trigger] after[i]).1)
        &&& owners[after[i].1] != after[i].0
    } by {
        if i < votes.len() {
            assert(after[i] == votes[i]);
        }
    }
}

} // verus!

verus! {

proof fn lemma_first_option(b: InteractionBody, name: Seq<char>, i: int)
    requires
        b.data is Some,
        b.data->0.options is Some,
        0 <= i < b.data->0.options->0@.len(),
        b.data->0.options->0@[i].name@ == name,
        forall|k: int| 0 <= k < i ==> (#[trigger] b.data->0.options->0@[k]).name@ != name,
    ensures
        option_lookup(b, name) == Ok::<CommandOptionValue, CommandError>(b.data->0.options->0@[i].value),
{
    let opts = b.data->0.options->0@;
    assert(crate::consumer::common::is_first_option(opts, name, i));
    let k = choose|k: int| #[trigger] crate::consumer::common::is_first_option(opts, name, k);
    if k < i {
        assert(opts[k].name@ != name);
    } else if k > i {
        assert(opts[i].name@ != name);
    }
}

/// A vote request is what the interaction says: the invoking member's user
/// id, the text of the first option named `id`, and the flag of the first
/// option named `vote`, whenever those are present with those types.
pub proof fn lemma_vote_request_reads_interaction(b: InteractionBody, r: Result<VoteRequest, CommandError>, i: int, j: int)
    requires
        call_ensures(vote_request, (&b,), r),
        b.member is Some,
        b.member->0.user.userid is Some,
        b.data is Some,
        b.data->0.options is Some,
        0 <= i < b.data->0.options->0@.len(),
        b.data->0.options->0@[i].name@ == "id"@,
        b.data->0.options->0@[i].value is STRING,
        forall|k: int| 0 <= k < i ==> (#[trigger] b.data->0.options->0@[k]).name@ != "id"@,
        0 <= j < b.data->0.options->0@.len(),
        b.data->0.options->0@[j].name@ == "vote"@,
        b.data->0.options->0@[j].value is BOOLEAN,
        forall|k: int| 0 <= k < j ==> (#[trigger] b.data->0.options->0@[k]).name@ != "vote"@,
    ensures
        r matches Ok(req) && {
            &&& req.user_id@ == b.member->0.user.userid->0@
            &&& req.prediction_id@ == b.data->0.options->0@[i].value->STRING_0@
            &&& req.vote == b.data->0.options->0@[j].value->BOOLEAN_0
        },
{
    lemma_first_option(b, "id"@, i);
    lemma_first_option(b, "vote"@, j);
}

} // verus!
