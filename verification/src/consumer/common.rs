//! Reading the parts of an interaction that commands need.
use vstd::prelude::*;
use crate::discord::{CommandOption, CommandOptionValue, InteractionBody};
use crate::entity::user::User;
use crate::text::owned;

verus! {

/// Why an interaction could not be handled.
#[derive(Debug, PartialEq, Eq, Structural)]
pub enum CommandError {
    MissingMember,
    MissingUserId,
    MissingData,
    MissingOptions,
    MissingOption,
    MissingCommandName,
    UnexpectedValueType,
}

/// The message the handler reports for an error.
pub open spec fn error_message(e: CommandError) -> Seq<char> {
    match e {
        CommandError::MissingMember => "missing member"@,
        CommandError::MissingUserId => "missing userid"@,
        CommandError::MissingData => "missing data"@,
        CommandError::MissingOptions => "missing options"@,
        CommandError::MissingOption => "missing option"@,
        CommandError::MissingCommandName => "missing command name"@,
        CommandError::UnexpectedValueType => "unexpected value type"@,
    }
}

impl CommandError {
    /// The message the handler reports for this error.
    pub fn message(&self) -> (s: String)
        ensures
            s@ == error_message(*self),
    {
        match self {
            CommandError::MissingMember => owned("missing member"),
            CommandError::MissingUserId => owned("missing userid"),
            CommandError::MissingData => owned("missing data"),
            CommandError::MissingOptions => owned("missing options"),
            CommandError::MissingOption => owned("missing option"),
            CommandError::MissingCommandName => owned("missing command name"),
            CommandError::UnexpectedValueType => owned("unexpected value type"),
        }
    }
}

/// The user who invoked the interaction.
pub fn get_member_user(e: &InteractionBody) -> (r: Result<&User, CommandError>)
    ensures
        match e.member {
            Some(m) => r == Ok::<&User, CommandError>(&m.user),
            None => r == Err::<&User, CommandError>(CommandError::MissingMember),
        },
{
    match &e.member {
        Some(m) => Ok(&m.user),
        None => Err(CommandError::MissingMember),
    }
}

/// The id of the user who invoked the interaction, or why there is none.
pub open spec fn member_user_id(e: InteractionBody) -> Result<Seq<char>, CommandError> {
    match e.member {
        None => Err(CommandError::MissingMember),
        Some(m) => match m.user.userid {
            None => Err(CommandError::MissingUserId),
            Some(id) => Ok(id@),
        },
    }
}

/// The id of the user who invoked the interaction.
pub fn get_memeber_user_id(e: &InteractionBody) -> (r: Result<String, CommandError>)
    ensures
        match r {
            Ok(s) => member_user_id(*e) == Ok::<Seq<char>, CommandError>(s@),
            Err(err) => member_user_id(*e) == Err::<Seq<char>, CommandError>(err),
        },
{
    let user = get_member_user(e)?;
    match &user.userid {
        Some(id) => Ok(id.clone()),
        None => Err(CommandError::MissingUserId),
    }
}

/// Whether option `i` is the first one called `name`.
pub open spec fn is_first_option(opts: Seq<CommandOption>, name: Seq<char>, i: int) -> bool {
    &&& 0 <= i < opts.len()
    &&& opts[i].name@ == name
    &&& forall|j: int| 0 <= j < i ==> #[trigger] opts[j].name@ != name
}

/// The value of the first option called `name`, or why there is none.
pub open spec fn option_lookup(b: InteractionBody, name: Seq<char>) -> Result<CommandOptionValue, CommandError> {
    match b.data {
        None => Err(CommandError::MissingData),
        Some(d) => match d.options {
            None => Err(CommandError::MissingOptions),
            Some(opts) => if exists|i: int| #[trigger] is_first_option(opts@, name, i) {
                Ok(opts@[choose|i: int| #[trigger] is_first_option(opts@, name, i)].value)
            } else {
                Err(CommandError::MissingOption)
            },
        },
    }
}

/// The value of the first option called `name`.
pub fn get_option_value<'a>(b: &'a InteractionBody, name: &str) -> (r: Result<&'a CommandOptionValue, CommandError>)
    ensures
        match r {
            Ok(v) => option_lookup(*b, name@) == Ok::<CommandOptionValue, CommandError>(*v),
            Err(err) => option_lookup(*b, name@) == Err::<CommandOptionValue, CommandError>(err),
        },
{
    let data = match &b.data {
        Some(d) => d,
        None => return Err(CommandError::MissingData),
    };
    let opts = match &data.options {
        Some(o) => o,
        None => return Err(CommandError::MissingOptions),
    };
    let wanted = owned(name);
    let mut i: usize = 0;
    while i < opts.len()
        invariant
            i <= opts@.len(),
            wanted@ == name@,
            b.data is Some,
            b.data->0.options == Some(*opts),
            forall|j: int| 0 <= j < i ==> #[trigger] opts@[j].name@ != name@,
        decreases opts@.len() - i,
    {
        if opts[i].name == wanted {
            proof {
                assert(is_first_option(opts@, name@, i as int));
                let k = choose|k: int| #[trigger] is_first_option(opts@, name@, k);
                if k < i {
                    assert(opts@[k].name@ != name@);
                } else if k > i {
                    assert(opts@[i as int].name@ != name@);
                }
            }
            return Ok(&opts[i].value);
        }
        i = i + 1;
    }
    proof {
        if exists|k: int| #[trigger] is_first_option(opts@, name@, k) {
            let k = choose|k: int| #[trigger] is_first_option(opts@, name@, k);
            assert(opts@[k].name@ != name@);
        }
    }
    Err(CommandError::MissingOption)
}

/// The name of the invoked command.
pub fn get_command_name(e: &InteractionBody) -> (r: Result<&String, CommandError>)
    ensures
        match e.data {
            Some(d) => r == Ok::<&String, CommandError>(&d.name),
            None => r == Err::<&String, CommandError>(CommandError::MissingCommandName),
        },
{
    match &e.data {
        Some(d) => Ok(&d.name),
        None => Err(CommandError::MissingCommandName),
    }
}

} // verus!
