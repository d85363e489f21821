//! How the abilities of the space are put into words for a language model.

use vstd::prelude::*;
use crate::api::{Ability, AbilityParameter, TimiteAbilities};
use crate::text::{decimal, joined, numbered, push_joined, trim, trimmed};

verus! {

/// What the template of one ability is filled with.
#[derive(Debug, PartialEq, Eq)]
pub struct AbilityEntryTemplateCtx {
    pub owner: String,
    pub name: String,
    pub description: String,
    pub params: String,
}

/// A parameter in words: its name and, in brackets, its description, each
/// without the white space around it; the one that is there where the other
/// is empty; `value` where both are.
pub open spec fn param_text(param: AbilityParameter) -> Seq<char> {
    let name = trimmed(param.name@);
    let desc = trimmed(param.description@);
    if name.len() == 0 && desc.len() == 0 {
        "value"@
    } else if name.len() == 0 {
        desc
    } else if desc.len() == 0 {
        name
    } else {
        name + " ("@ + desc + ")"@
    }
}

/// The owner of some abilities in words: its nick without the white space
/// around it, or `timite#` and its id where the nick is empty.
pub open spec fn owner_text(envelope: TimiteAbilities) -> Seq<char> {
    if trimmed(envelope.timite.nick@).len() == 0 {
        "timite#"@ + decimal(envelope.timite.id as nat)
    } else {
        trimmed(envelope.timite.nick@)
    }
}

/// The owner of some abilities in words.
pub fn ability_owner(envelope: &TimiteAbilities) -> (owner: String)
    ensures
        owner@ == owner_text(*envelope),
{
    let nick = trim(envelope.timite.nick.as_str());
    if nick.unicode_len() == 0 {
        numbered("timite#", envelope.timite.id)
    } else {
        String::from_str(nick)
    }
}

/// A parameter in words.
pub fn format_param(param: &AbilityParameter) -> (text: String)
    ensures
        text@ == param_text(*param),
{
    let name = trim(param.name.as_str());
    let desc = trim(param.description.as_str());
    let no_name = name.unicode_len() == 0;
    let no_desc = desc.unicode_len() == 0;
    if no_name && no_desc {
        String::from_str("value")
    } else if no_name {
        String::from_str(desc)
    } else if no_desc {
        String::from_str(name)
    } else {
        let mut text = String::from_str(name);
        text.append(" (");
        text.append(desc);
        text.append(")");
        text
    }
}

/// The parameters of an ability in words, a comma between each two; `none`
/// where it has none.
pub fn format_params(params: &Vec<AbilityParameter>) -> (text: String)
    ensures
        params@.len() == 0 ==> text@ == "none"@,
        params@.len() > 0 ==> exists|parts: Seq<String>|
            #![trigger joined(parts, ", "@)]
            parts.len() == params@.len() && (forall|i: int|
                0 <= i < parts.len() ==> (#[trigger] parts[i])@ == param_text(params@[i])) && text@
                == joined(parts, ", "@),
{
    if params.len() == 0 {
        return String::from_str("none");
    }
    let mut parts: Vec<String> = Vec::new();
    let mut i: usize = 0;
    while i < params.len()
        invariant
            i <= params.len(),
            parts@.len() == i,
            forall|j: int| 0 <= j < i ==> (#[trigger] parts@[j])@ == param_text(params@[j]),
        decreases params.len() - i,
    {
        parts.push(format_param(&params[i]));
        i += 1;
    }
    let mut text = String::new();
    push_joined(&mut text, &parts, ", ");
    assert(text@ =~= joined(parts@, ", "@));
    text
}

/// What the template of one ability is filled with: nothing for an ability
/// without a name.
pub fn ability_entry_ctx(owner: &str, ability: &Ability) -> (r: Option<AbilityEntryTemplateCtx>)
    ensures
        match r {
            Some(ctx) => {
                &&& trimmed(ability.name@).len() > 0
                &&& ctx.owner@ == owner@
                &&& ctx.name@ == trimmed(ability.name@)
                &&& ctx.description@ == if trimmed(ability.description@).len() == 0 {
                    "no description provided"@
                } else {
                    trimmed(ability.description@)
                }
            },
            None => trimmed(ability.name@).len() == 0,
        },
{
    let name = trim(ability.name.as_str());
    if name.unicode_len() == 0 {
        return None;
    }
    let description = trim(ability.description.as_str());
    Some(
        AbilityEntryTemplateCtx {
            owner: String::from_str(owner),
            name: String::from_str(name),
            description: if description.unicode_len() == 0 {
                String::from_str("no description provided")
            } else {
                String::from_str(description)
            },
            params: format_params(&ability.params),
        },
    )
}

} // verus!
