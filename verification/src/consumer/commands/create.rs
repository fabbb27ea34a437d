//! `create`: a user states a prediction; the bot stores it under a fresh id
//! and announces it.
use vstd::prelude::*;
use crate::consumer::common::{CommandError, get_option_value, get_memeber_user_id, option_lookup, member_user_id};
use crate::consumer::commands::{mention, make_mention, is_block_field, block_field, embed_parts};
use crate::discord::{CommandOptionValue, Embed, InteractionBody, ResponseData};
use crate::entity::prediction::Prediction;
use crate::text::owned;

verus! {

/// What a `create` command asks for: the condition and who predicts it.
#[derive(Debug)]
pub struct CreateRequest {
    pub condition: String,
    pub user_id: String,
}

/// The condition and the user id of a `create` command, or why they cannot
/// be read: the option `condition` is looked up first and must be a string,
/// then the invoking user's id.
pub open spec fn create_request_spec(b: InteractionBody) -> Result<(Seq<char>, Seq<char>), CommandError> {
    match option_lookup(b, "condition"@) {
        Err(e) => Err(e),
        Ok(v) => match v {
            CommandOptionValue::STRING(s) => match member_user_id(b) {
                Ok(id) => Ok((s@, id)),
                Err(e) => Err(e),
            },
            _ => Err(CommandError::UnexpectedValueType),
        },
    }
}

/// The `create` request of an interaction.
pub fn create_request(b: &InteractionBody) -> (r: Result<CreateRequest, CommandError>)
    ensures
        match r {
            Ok(req) => create_request_spec(*b) == Ok::<(Seq<char>, Seq<char>), CommandError>((req.condition@, req.user_id@)),
            Err(e) => create_request_spec(*b) == Err::<(Seq<char>, Seq<char>), CommandError>(e),
        },
{
    let condition = match get_option_value(b, "condition")?.string() {
        Some(s) => s.clone(),
        None => return Err(CommandError::UnexpectedValueType),
    };
    let user_id = get_memeber_user_id(b)?;
    Ok(CreateRequest { condition, user_id })
}

} // verus!

verus! {

/// A new prediction for the request: a fresh id made of random words, the
/// current time, the request's condition, and the requesting user.
pub fn candidate_prediction(req: &CreateRequest) -> (p: Prediction)
    ensures
        p.predictionid matches Some(id) && crate::entity::prediction::is_word_id(id@),
        crate::entity::generated::is_rfc3339_utc(p.createdat@),
        p.userid matches Some(u) && u@ == req.user_id@,
        p.condition@ == req.condition@,
{
    let d = Prediction::default();
    Prediction {
        predictionid: d.predictionid,
        userid: Some(req.user_id.clone()),
        condition: req.condition.clone(),
        createdat: d.createdat,
    }
}

/// Whether a candidate's id is free: no stored prediction was found under it.
pub fn id_is_free(found: &Vec<Prediction>) -> (free: bool)
    ensures
        free == (found@.len() == 0),
{
    found.len() < 1
}

/// The announcement of a new prediction: an embed titled `New Prediction`
/// with the condition as description and the fields `By` (a mention of the
/// user) and `ID` (the prediction id).
pub open spec fn is_create_response(d: ResponseData, condition: Seq<char>, user_id: Seq<char>, prediction_id: Seq<char>) -> bool {
    &&& d.flags is None
    &&& d.content is None
    &&& d.embeds matches Some(es) && {
        &&& es@.len() == 1
        &&& embed_parts(es@[0], "New Prediction"@, condition, None)
        &&& es@[0].fields matches Some(fs) && {
            &&& fs@.len() == 2
            &&& is_block_field(fs@[0], "By"@, mention(user_id))
            &&& is_block_field(fs@[1], "ID"@, prediction_id)
        }
    }
}

/// The announcement of the stored prediction.
pub fn create_response(req: &CreateRequest, prediction: &Prediction) -> (d: ResponseData)
    requires
        prediction.predictionid is Some,
    ensures
        is_create_response(d, req.condition@, req.user_id@, prediction.predictionid->0@),
{
    let mut fields = Vec::new();
    fields.push(block_field("By", make_mention(req.user_id.as_str())));
    let id = match &prediction.predictionid {
        Some(id) => id.clone(),
        None => owned(""),
    };
    fields.push(block_field("ID", id));
    let mut embeds = Vec::new();
    embeds.push(Embed {
        title: Some(owned("New Prediction")),
        description: Some(req.condition.clone()),
        color: None,
        url: None,
        fields: Some(fields),
    });
    ResponseData { flags: None, content: None, embeds: Some(embeds) }
}

} // verus!
