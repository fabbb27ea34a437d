use glsst::consumer::commands::create::{candidate_prediction, create_request, create_response, id_is_free, CreateRequest};
use glsst::consumer::commands::foo::foo;
use glsst::consumer::commands::vote::{vote_decision, vote_prediction_lookup, vote_request, vote_voter_lookup, VoteDecision, VoteRequest};
use glsst::consumer::common::{get_command_name, get_member_user, get_memeber_user_id, get_option_value, CommandError};
use glsst::consumer::handler::{onboarding, webhook_url, Command, Onboarding};
use glsst::deez;
use glsst::discord::{CommandOption, CommandOptionValue, InteractionBody, InteractionData, Member, ResponseData};
use glsst::dynamo;
use glsst::entity::prediction::{prediction_id_from_words, prediction_item, prediction_lookup, Prediction};
use glsst::entity::user::{user_item, user_key, user_lookup, User};
use glsst::entity::voter::{voter_item, voter_lookup, Voter};
use glsst::dynamo::DdbEntity;
use glsst::hw;
use glsst::item::AttributeValue;
use glsst::receiver::{decode_public_key, decode_signature, greeting, is_check_request, is_genuine, signed_message, ReceiverError};
use glsst::hexcode::HexError;
use glsst::request::key_query;
use glsst::table::Table;
use glsst::text::{bool_to_text, i64_to_decimal, u64_to_decimal};

fn user(id: Option<&str>, name: &str, global: &str, avatar: &str) -> User {
    User {
        userid: id.map(|s| s.to_string()),
        username: name.to_string(),
        discriminator: "0".to_string(),
        globalname: global.to_string(),
        avatar: avatar.to_string(),
    }
}

fn option(name: &str, value: CommandOptionValue) -> CommandOption {
    CommandOption { name: name.to_string(), option_type: 3, value }
}

fn body(member: Option<User>, command: &str, options: Option<Vec<CommandOption>>) -> InteractionBody {
    InteractionBody {
        application_id: "app".to_string(),
        id: "1".to_string(),
        token: "tok".to_string(),
        interaction_type: 2,
        version: 1,
        member: member.map(|user| Member { user }),
        data: Some(InteractionData {
            guild_id: "g".to_string(),
            id: "c".to_string(),
            name: command.to_string(),
            data_type: 1,
            options,
        }),
    }
}

fn text(item: &glsst::item::Item, name: &str) -> String {
    item.get_str(name).unwrap().as_s().unwrap().to_string()
}

#[test]
fn table_keeps_the_last_value_of_a_key() {
    let mut t: Table<String, AttributeValue> = Table::new();
    t.insert("a".to_string(), AttributeValue::S("1".to_string()));
    t.insert("b".to_string(), AttributeValue::Bool(true));
    t.insert("a".to_string(), AttributeValue::N("2".to_string()));
    assert_eq!(t.len(), 2);
    assert_eq!(t.get_str("a"), Some(&AttributeValue::N("2".to_string())));
    assert_eq!(t.get_str("b"), Some(&AttributeValue::Bool(true)));
    assert_eq!(t.get_str("c"), None);
    let (k, v) = t.entry(0);
    assert_eq!(k, "a");
    assert_eq!(v, &AttributeValue::N("2".to_string()));
}

#[test]
fn decimal_texts() {
    assert_eq!(u64_to_decimal(0), "0");
    assert_eq!(u64_to_decimal(18446744073709551615), "18446744073709551615");
    assert_eq!(i64_to_decimal(-42), "-42");
    assert_eq!(i64_to_decimal(i64::MIN), "-9223372036854775808");
    assert_eq!(i64_to_decimal(907), "907");
    assert_eq!(bool_to_text(true), "true");
    assert_eq!(bool_to_text(false), "false");
}

#[test]
fn attribute_values_as_typed() {
    let s = AttributeValue::S("x".to_string());
    assert_eq!(s.as_s(), Ok(&"x".to_string()));
    assert!(s.as_n().is_err());
    assert!(s.as_bool().is_err());
    assert_eq!(AttributeValue::Bool(false).as_bool(), Ok(&false));
    assert_eq!(AttributeValue::N("3".to_string()).as_n(), Ok(&"3".to_string()));
}

#[test]
fn dynamo_attribute_texts() {
    assert_eq!(dynamo::Attribute::DdbNumber(Some(-42)).string_or_none(), Some("-42".to_string()));
    assert_eq!(dynamo::Attribute::DdbBoolean(Some(true)).string_or_none(), Some("true".to_string()));
    assert_eq!(dynamo::Attribute::DdbString(Some("s".to_string())).string_or_none(), Some("s".to_string()));
    assert_eq!(dynamo::Attribute::DdbString(None).string_or_none(), None);
    assert_eq!(dynamo::Attribute::DdbNumber(None).to_value(), None);
    assert_eq!(dynamo::Attribute::DdbNumber(Some(12)).to_value(), Some(AttributeValue::N("12".to_string())));
    assert_eq!(dynamo::Attribute::DdbBoolean(Some(false)).to_value(), Some(AttributeValue::Bool(false)));
}

#[test]
fn dynamo_join_composite_skips_missing_values() {
    let mut attrs: Table<String, dynamo::Attribute> = Table::new();
    attrs.insert("a".to_string(), dynamo::Attribute::DdbString(Some("x".to_string())));
    attrs.insert("b".to_string(), dynamo::Attribute::DdbString(None));
    attrs.insert("c".to_string(), dynamo::Attribute::DdbNumber(Some(5)));
    let k = dynamo::Key { field: "pk".to_string(), composite: vec!["a".to_string(), "b".to_string(), "c".to_string()] };
    assert_eq!(k.join_composite(&attrs), "#a_x#c_5");
}

#[test]
fn deez_texts_and_index_names() {
    assert_eq!(deez::Attribute::DeezNumber(-7).to_string(), "-7");
    assert_eq!(deez::Attribute::DeezBoolean(false).to_string(), "false");
    assert_eq!(deez::Attribute::DeezString(String::new()).to_string(), "");
    assert_eq!(deez::Attribute::DeezNumber(3).to_value(), AttributeValue::N("3".to_string()));
    assert_eq!(deez::Index::Primary.to_string(), "primary");
    assert_eq!(deez::Index::Gsi1("byUser").to_string(), "byUser");
    assert_eq!(deez::Index::Gsi20("last").to_string(), "last");
    assert!(deez::Index::Primary.is_primary());
    assert!(!deez::Index::Gsi3("x").is_primary());
    assert_eq!(deez::Index::Gsi3("x").slot(), (3, "x"));
}

#[test]
fn deez_join_composite_skips_empty_text() {
    let mut attrs: Table<String, deez::Attribute> = Table::new();
    attrs.insert("a".to_string(), deez::Attribute::DeezString(String::new()));
    attrs.insert("b".to_string(), deez::Attribute::DeezBoolean(true));
    let k = deez::Key { field: "sk".to_string(), composite: vec!["a".to_string(), "b".to_string()] };
    assert_eq!(k.join_composite(&attrs), "#b_true");
}

#[test]
fn key_query_plan() {
    let plan = key_query("t", "pk", "sk", AttributeValue::S("P".to_string()), AttributeValue::S("S".to_string()), None);
    assert_eq!(plan.table_name, "t");
    assert_eq!(plan.key_condition_expression, "#pk = :pk and begins_with(#sk, :sk)");
    assert_eq!(plan.expression_attribute_names, vec![("#pk".to_string(), "pk".to_string()), ("#sk".to_string(), "sk".to_string())]);
    assert_eq!(
        plan.expression_attribute_values,
        vec![(":pk".to_string(), AttributeValue::S("P".to_string())), (":sk".to_string(), AttributeValue::S("S".to_string()))]
    );
    assert_eq!(plan.index_name, None);
}

#[test]
fn prediction_stored_and_read_back() {
    let p = Prediction {
        predictionid: Some("a-b-c".to_string()),
        userid: Some("42".to_string()),
        condition: "rain".to_string(),
        createdat: "now".to_string(),
    };
    let m = prediction_item(&p);
    assert_eq!(text(&m, "_entity"), "User");
    assert_eq!(text(&m, "pk"), "$Glsst#User#predictionid_a-b-c");
    assert_eq!(text(&m, "sk"), "$User");
    assert_eq!(text(&m, "gsi1pk"), "$Glsst#User#userid_42");
    assert_eq!(text(&m, "gsi1sk"), "$User#predictionid_a-b-c");
    assert_eq!(text(&m, "gsi2pk"), "$Glsst#User#userid_42");
    assert_eq!(text(&m, "gsi2sk"), "$User");
    let q = Prediction::from_map(&m);
    assert_eq!(q.predictionid, p.predictionid);
    assert_eq!(q.userid, p.userid);
    assert_eq!(q.condition, p.condition);
    assert_eq!(q.createdat, p.createdat);
    let plan = prediction_lookup(&p);
    assert_eq!(plan.table_name, "prod-glsst-table");
    assert_eq!(plan.index_name, None);
    assert_eq!(plan.expression_attribute_values[0].1, AttributeValue::S("$Glsst#User#predictionid_a-b-c".to_string()));
    assert_eq!(plan.expression_attribute_values[1].1, AttributeValue::S("$User".to_string()));
}

#[test]
fn prediction_default_has_word_id() {
    let p = Prediction::default();
    let id = p.predictionid.unwrap();
    assert_eq!(id.matches('-').count() >= 2, true);
    assert!(chrono::DateTime::parse_from_rfc3339(&p.createdat).is_ok());
    assert!(p.createdat.ends_with("+00:00"));
    assert_eq!(p.userid, Some(String::new()));
    assert_eq!(p.condition, "");
    assert_eq!(prediction_id_from_words("big", "bold", "synergy"), "big-bold-synergy");
}

#[test]
fn user_stored_and_read_back() {
    let u = user(Some("7"), "ann", "Ann", "av");
    let m = user_item(&u);
    assert_eq!(text(&m, "pk"), "$Glsst#User#userid_7");
    assert_eq!(text(&m, "sk"), "$User");
    assert_eq!(text(&m, "gsi1pk"), "$Glsst#User#userid_7");
    let r = User::from_map(&m);
    assert_eq!(r.userid, u.userid);
    assert_eq!(r.username, u.username);
    assert_eq!(r.discriminator, u.discriminator);
    assert_eq!(r.globalname, u.globalname);
    assert_eq!(r.avatar, u.avatar);
    let plan = user_lookup(&u);
    assert_eq!(plan.expression_attribute_values[0].1, AttributeValue::S("$Glsst#User#userid_7".to_string()));
    assert_eq!(
        user_key(&u),
        vec![
            ("pk".to_string(), AttributeValue::S("$Glsst#User#userid_7".to_string())),
            ("sk".to_string(), AttributeValue::S("$User".to_string())),
        ]
    );
}

#[test]
fn user_without_id_has_bare_key() {
    let u = user(None, "ann", "Ann", "av");
    let m = user_item(&u);
    assert_eq!(text(&m, "pk"), "$Glsst#User");
    assert!(m.get_str("userid").is_none());
}

#[test]
fn voter_stored_and_read_back() {
    let v = Voter {
        voterid: Some("v1".to_string()),
        predictionid: Some("p1".to_string()),
        userid: Some("u1".to_string()),
        vote: true,
    };
    let m = voter_item(&v);
    assert_eq!(text(&m, "pk"), "$Glsst#User#voterid_v1");
    assert_eq!(text(&m, "gsi1pk"), "$Glsst#User#userid_u1");
    assert_eq!(text(&m, "gsi1sk"), "$User#predictionid_p1");
    assert_eq!(text(&m, "gsi2pk"), "$Glsst#User#predictionid_p1");
    assert_eq!(text(&m, "gsi2sk"), "$User#userid_u1");
    assert_eq!(m.get_str("vote"), Some(&AttributeValue::Bool(true)));
    let r = Voter::from_map(&m);
    assert_eq!(r.voterid, v.voterid);
    assert_eq!(r.predictionid, v.predictionid);
    assert_eq!(r.userid, v.userid);
    assert_eq!(r.vote, v.vote);
    let plan = voter_lookup(&v);
    assert_eq!(plan.index_name, Some("gsi1".to_string()));
}

#[test]
fn voter_default_has_uuid() {
    let v = Voter::default();
    let id = v.voterid.unwrap();
    assert_eq!(id.len(), 36);
    assert_eq!(id.as_bytes()[8], b'-');
    assert_eq!(id.as_bytes()[14], b'4');
    assert!(matches!(id.as_bytes()[19], b'8' | b'9' | b'a' | b'b'));
    assert!(uuid::Uuid::parse_str(&id).is_ok());
    assert_eq!(v.predictionid, None);
    assert_eq!(v.userid, None);
    assert!(!v.vote);
}

#[test]
fn member_and_options() {
    let b = body(Some(user(Some("9"), "n", "g", "a")), "vote", Some(vec![
        option("id", CommandOptionValue::STRING("p".to_string())),
        option("vote", CommandOptionValue::BOOLEAN(true)),
        option("id", CommandOptionValue::STRING("second".to_string())),
    ]));
    assert_eq!(get_member_user(&b).unwrap().username, "n");
    assert_eq!(get_memeber_user_id(&b), Ok("9".to_string()));
    assert_eq!(get_option_value(&b, "id").unwrap().string(), Some(&"p".to_string()));
    assert_eq!(get_option_value(&b, "vote").unwrap().boolean(), Some(&true));
    assert_eq!(get_option_value(&b, "vote").unwrap().string(), None);
    assert_eq!(get_option_value(&b, "nope").err(), Some(CommandError::MissingOption));
    assert_eq!(get_command_name(&b), Ok(&"vote".to_string()));
}

#[test]
fn command_errors() {
    let no_member = body(None, "foo", None);
    assert_eq!(get_member_user(&no_member).err(), Some(CommandError::MissingMember));
    assert_eq!(get_memeber_user_id(&no_member), Err(CommandError::MissingMember));
    assert_eq!(get_option_value(&no_member, "x").err(), Some(CommandError::MissingOptions));
    let no_id = body(Some(user(None, "n", "g", "a")), "foo", None);
    assert_eq!(get_memeber_user_id(&no_id), Err(CommandError::MissingUserId));
    let mut no_data = body(None, "foo", None);
    no_data.data = None;
    assert_eq!(get_option_value(&no_data, "x").err(), Some(CommandError::MissingData));
    assert_eq!(get_command_name(&no_data), Err(CommandError::MissingCommandName));
    assert_eq!(CommandError::MissingCommandName.message(), "missing command name");
    assert_eq!(CommandError::UnexpectedValueType.message(), "unexpected value type");
}

#[test]
fn foo_answers_bar() {
    let d = foo(&body(None, "foo", None)).unwrap();
    assert_eq!(d.content, Some("bar".to_string()));
    assert!(d.embeds.is_none());
}

#[test]
fn create_request_and_response() {
    let b = body(Some(user(Some("5"), "n", "g", "a")), "create", Some(vec![option("condition", CommandOptionValue::STRING("it rains".to_string()))]));
    let req = create_request(&b).unwrap();
    assert_eq!(req.condition, "it rains");
    assert_eq!(req.user_id, "5");
    let p = candidate_prediction(&req);
    assert_eq!(p.userid, Some("5".to_string()));
    assert_eq!(p.condition, "it rains");
    assert!(p.predictionid.is_some());
    assert!(id_is_free(&vec![]));
    assert!(!id_is_free(&vec![p.clone()]));
    let fixed = Prediction { predictionid: Some("x-y-z".to_string()), ..p };
    let d = create_response(&req, &fixed);
    assert_eq!(d.content, None);
    let e = &d.embeds.as_ref().unwrap()[0];
    assert_eq!(e.title, Some("New Prediction".to_string()));
    assert_eq!(e.description, Some("it rains".to_string()));
    let f = e.fields.as_ref().unwrap();
    assert_eq!(f[0].name, Some("By".to_string()));
    assert_eq!(f[0].value, Some("<@5>".to_string()));
    assert_eq!(f[0].inline, Some(false));
    assert_eq!(f[1].value, Some("x-y-z".to_string()));
}

#[test]
fn create_request_errors() {
    let wrong = body(Some(user(Some("5"), "n", "g", "a")), "create", Some(vec![option("condition", CommandOptionValue::BOOLEAN(true))]));
    assert_eq!(create_request(&wrong).err().map(|e| e.message()), Some("unexpected value type".to_string()));
    let missing = body(Some(user(Some("5"), "n", "g", "a")), "create", Some(vec![]));
    assert_eq!(create_request(&missing).err().map(|e| e.message()), Some("missing option".to_string()));
    let anonymous = body(None, "create", Some(vec![option("condition", CommandOptionValue::STRING("c".to_string()))]));
    assert_eq!(create_request(&anonymous).err().map(|e| e.message()), Some("missing member".to_string()));
}

fn vote_req(user_id: &str, prediction_id: &str, vote: bool) -> VoteRequest {
    VoteRequest { user_id: user_id.to_string(), prediction_id: prediction_id.to_string(), vote }
}

fn stored_prediction(owner: &str) -> Prediction {
    Prediction {
        predictionid: Some("p-q-r".to_string()),
        userid: Some(owner.to_string()),
        condition: "snow".to_string(),
        createdat: "t".to_string(),
    }
}

fn reply_text(d: VoteDecision) -> String {
    match d {
        VoteDecision::Reply(m) => m.content.unwrap(),
        other => panic!("expected a reply, got {:?}", other),
    }
}

#[test]
fn vote_request_reading() {
    let b = body(Some(user(Some("9"), "n", "g", "a")), "vote", Some(vec![
        option("vote", CommandOptionValue::BOOLEAN(false)),
        option("id", CommandOptionValue::STRING("p-q-r".to_string())),
    ]));
    let req = vote_request(&b).unwrap();
    assert_eq!(req.user_id, "9");
    assert_eq!(req.prediction_id, "p-q-r");
    assert!(!req.vote);
    let bad = body(Some(user(Some("9"), "n", "g", "a")), "vote", Some(vec![
        option("vote", CommandOptionValue::STRING("yes".to_string())),
        option("id", CommandOptionValue::STRING("p".to_string())),
    ]));
    assert_eq!(vote_request(&bad).err(), Some(CommandError::UnexpectedValueType));
}

#[test]
fn vote_on_missing_prediction() {
    let d = vote_decision(&vote_req("9", "p", true), &vec![], None);
    assert_eq!(reply_text(d), "<@9> voted on a nonexistent prediction.");
}

#[test]
fn vote_on_own_prediction() {
    let d = vote_decision(&vote_req("9", "p-q-r", true), &vec![stored_prediction("9")], Some(0));
    assert_eq!(reply_text(d), "<@9> tried to vote on xis/xer own prediction.");
}

#[test]
fn vote_asks_for_voters_then_refuses_twice() {
    let preds = vec![stored_prediction("1")];
    let d = vote_decision(&vote_req("9", "p-q-r", true), &preds, None);
    assert!(matches!(d, VoteDecision::LookupVoters));
    let d = vote_decision(&vote_req("9", "p-q-r", true), &preds, Some(2));
    assert_eq!(reply_text(d), "<@9> tried to vote twice.");
}

#[test]
fn vote_recorded_in_favor_and_against() {
    let preds = vec![stored_prediction("1")];
    match vote_decision(&vote_req("9", "p-q-r", true), &preds, Some(0)) {
        VoteDecision::Record(v, m) => {
            assert_eq!(v.predictionid, Some("p-q-r".to_string()));
            assert_eq!(v.userid, Some("9".to_string()));
            assert!(v.vote);
            assert_eq!(v.voterid.unwrap().len(), 36);
            assert_eq!(m.content, Some("voted".to_string()));
            let e = &m.embeds.as_ref().unwrap()[0];
            assert_eq!(e.title, Some("Vote".to_string()));
            assert_eq!(e.color, Some(65280));
            assert_eq!(e.description, Some("<@9> voted in favor of <@1>'s prediction:".to_string()));
            let f = e.fields.as_ref().unwrap();
            assert_eq!(f[0].name, Some("Condition(s)".to_string()));
            assert_eq!(f[0].value, Some("snow".to_string()));
            assert_eq!(f[1].name, Some("ID".to_string()));
            assert_eq!(f[1].value, Some("p-q-r".to_string()));
        },
        other => panic!("expected a record, got {:?}", other),
    }
    match vote_decision(&vote_req("9", "p-q-r", false), &preds, Some(0)) {
        VoteDecision::Record(v, m) => {
            assert!(!v.vote);
            let e = &m.embeds.as_ref().unwrap()[0];
            assert_eq!(e.color, Some(16711680));
            assert_eq!(e.description, Some("<@9> voted against <@1>'s prediction:".to_string()));
        },
        other => panic!("expected a record, got {:?}", other),
    }
}

#[test]
fn vote_lookups() {
    let req = vote_req("9", "p-q-r", true);
    let plan = vote_prediction_lookup(&req);
    assert_eq!(plan.table_name, "prod-glsst-table");
    assert_eq!(plan.index_name, None);
    assert_eq!(plan.expression_attribute_values[0].1, AttributeValue::S("$Glsst#User#predictionid_p-q-r".to_string()));
    assert_eq!(plan.expression_attribute_values[1].1, AttributeValue::S("$User".to_string()));
    let plan = vote_voter_lookup(&req);
    assert_eq!(plan.index_name, Some("gsi1".to_string()));
    assert_eq!(plan.key_condition_expression, "#pk = :pk and begins_with(#sk, :sk)");
    let pk = plan.expression_attribute_values[0].1.as_s().unwrap();
    let id = pk.strip_prefix("$Glsst#User#voterid_").unwrap();
    assert_eq!(uuid::Uuid::parse_str(id).unwrap().get_version_num(), 4);
    assert_eq!(plan.expression_attribute_values[1].1, AttributeValue::S("$User".to_string()));
}

#[test]
fn onboarding_new_changed_and_same_user() {
    let u = user(Some("1"), "ann", "Ann", "av");
    assert!(matches!(onboarding(&vec![], &u), Onboarding::Create));
    assert!(matches!(onboarding(&vec![u.clone()], &u), Onboarding::Unchanged));
    let stored = user(Some("1"), "ann", "Old", "old");
    match onboarding(&vec![stored], &u) {
        Onboarding::Update(up) => {
            assert_eq!(up.update_expression, "SET #globalname = :globalname #avatar = :avatar");
            assert_eq!(up.names, vec![
                ("#globalname".to_string(), "globalname".to_string()),
                ("#avatar".to_string(), "avatar".to_string()),
            ]);
            assert_eq!(up.values, vec![
                (":globalname".to_string(), AttributeValue::S("Ann".to_string())),
                (":avatar".to_string(), AttributeValue::S("av".to_string())),
            ]);
        },
        other => panic!("expected an update, got {:?}", other),
    }
}

#[test]
fn commands_and_webhook() {
    assert_eq!(Command::from_name("foo"), Some(Command::Foo));
    assert_eq!(Command::from_name("create"), Some(Command::Create));
    assert_eq!(Command::from_name("vote"), Some(Command::Vote));
    assert_eq!(Command::from_name("Vote"), None);
    assert_eq!(webhook_url("123", "abc"), "https://discord.com/api/v10/webhooks/123/abc");
}

#[test]
fn hello_world_schema_item() {
    let p = hw::entity::Prediction {
        prediction_id: "id1".to_string(),
        user_id: "u".to_string(),
        condition: "c".to_string(),
        created_at: "t".to_string(),
    };
    let m = hw::ddb::DdbEntity::entity_to_av_map(&p);
    assert_eq!(text(&m, "_entity"), "Prediction");
    assert_eq!(text(&m, "pk"), "$Cdkrs#prediction_id_id1");
    assert_eq!(text(&m, "sk"), "$Cdkrs");
    assert_eq!(text(&m, "prediction_id"), "id1");
    assert_eq!(text(&m, "created_at"), "t");
    assert_eq!(hw::handler::greeting("world"), "Hello world, this is an AWS Lambda HTTP request.");
    assert_eq!(hw::handler::greeted_name(None), "world");
    assert_eq!(hw::handler::greeted_name(Some("bob")), "bob");
}

const RFC8032_KEY: &str = "d75a980182b10ab7d54bfed3c964073a0ee172f3daa62325af021a68f707511a";
const RFC8032_SIG: &str = "e5564300c360ac729086e2cc806e828a84877f1eb8e5d974d873e065224901555fb8821590a33bacc61e39701cf9b46bd25bf5f0595bbe24655141438e7a100b";
const RFC8032_KEY2: &str = "3d4017c3e843895a92b70aa74d1b7ebc9c982ccf2ec4968cc0cd55f12af4660c";
const RFC8032_SIG2: &str = "92a009a9f0d4cab8720e820b5f642540a2b27b5416503f8fb3762223ebdb69da085ac1e43e15996e458f3613d0f11d8c387b2eaeb4302aeeb00d291612bb0c00";

#[test]
fn receiver_accepts_genuine_signatures() {
    let key = decode_public_key(RFC8032_KEY).unwrap();
    let sig = decode_signature(RFC8032_SIG).unwrap();
    assert!(is_genuine(&key, "", "", &sig));
    assert!(!is_genuine(&key, "", "x", &sig));
    let key2 = decode_public_key(RFC8032_KEY2).unwrap();
    let sig2 = decode_signature(RFC8032_SIG2).unwrap();
    assert!(is_genuine(&key2, "r", "", &sig2));
    assert!(is_genuine(&key2, "", "r", &sig2));
    assert!(!is_genuine(&key2, "r", "r", &sig2));
    assert!(!is_genuine(&key, "r", "", &sig2));
    assert_eq!(signed_message("1700000000", "{}"), "1700000000{}");
}

#[test]
fn receiver_rejects_malformed_hex() {
    assert_eq!(decode_public_key("abc").err(), Some(ReceiverError::PublicKeyHex(HexError::OddLength)));
    assert_eq!(
        decode_public_key("zz").err(),
        Some(ReceiverError::PublicKeyHex(HexError::InvalidHexCharacter { c: 'z', index: 0 }))
    );
    assert_eq!(decode_public_key("00").err(), Some(ReceiverError::PublicKey));
    assert_eq!(decode_signature("0g").err(), Some(ReceiverError::SignatureHex(HexError::InvalidHexCharacter { c: 'g', index: 1 })));
    assert_eq!(decode_signature("00").err(), Some(ReceiverError::Signature));
    let mut high = RFC8032_SIG[..126].to_string();
    high.push_str("ff");
    assert_eq!(decode_signature(&high).err(), Some(ReceiverError::Signature));
    assert!(decode_public_key(&RFC8032_KEY.to_uppercase()).is_ok());
}

#[test]
fn receiver_small_helpers() {
    assert!(is_check_request(1));
    assert!(!is_check_request(2));
    assert_eq!(greeting("x"), "Hello x, this is an AWS Lambda HTTP request");
}

#[test]
fn fill_generated_takes_defaults_only_for_absent_values() {
    let mut attrs: Table<String, dynamo::Attribute> = Table::new();
    attrs.insert("a".to_string(), dynamo::Attribute::DdbString(None));
    attrs.insert("b".to_string(), dynamo::Attribute::DdbString(Some("kept".to_string())));
    attrs.insert("c".to_string(), dynamo::Attribute::DdbNumber(None));
    let mut defaults: Table<String, dynamo::Attribute> = Table::new();
    defaults.insert("a".to_string(), dynamo::Attribute::DdbString(Some("filled".to_string())));
    defaults.insert("b".to_string(), dynamo::Attribute::DdbString(Some("unused".to_string())));
    defaults.insert("c".to_string(), dynamo::Attribute::DdbNumber(None));
    let t = dynamo::fill_generated(&attrs, &defaults);
    assert_eq!(t.len(), 3);
    assert_eq!(t.get_str("a").unwrap().string_or_none(), Some("filled".to_string()));
    assert_eq!(t.get_str("b").unwrap().string_or_none(), Some("kept".to_string()));
    assert_eq!(t.get_str("c").unwrap().string_or_none(), None);
}

#[test]
fn from_map_slice_reads_items_in_order() {
    let a = user(Some("1"), "a", "A", "x");
    let b = user(Some("2"), "b", "B", "y");
    let users = User::from_map_slice(&[user_item(&a), user_item(&b)]);
    assert_eq!(users.len(), 2);
    assert_eq!(users[0].userid, Some("1".to_string()));
    assert_eq!(users[1].username, "b");
    assert!(User::from_map_slice(&[]).is_empty());
}
