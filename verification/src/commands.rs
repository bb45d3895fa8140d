use vstd::prelude::*;

use crate::text::{clone_opt_text, clone_opt_texts, opt_text, opt_texts};

verus! {

/// Where a slash command available to an agent comes from.
#[derive(Clone, Copy, Debug, PartialEq, Eq)]
pub enum SlashCommandSource {
    Builtin,
    Skill,
    Extension,
    Custom,
    McpPrompt,
    File,
}

/// The input hint of a slash command.
#[derive(Debug, PartialEq, Eq)]
pub struct SlashCommandInput {
    pub hint: Option<String>,
}

/// A subcommand of a slash command.
#[derive(Debug, PartialEq, Eq)]
pub struct SlashSubcommand {
    pub name: String,
    pub description: Option<String>,
    pub usage: Option<String>,
}

/// The text of a subcommand: name, description and usage.
pub struct SlashSubcommandView {
    pub name: Seq<char>,
    pub description: Option<Seq<char>>,
    pub usage: Option<Seq<char>>,
}

impl View for SlashSubcommand {
    type V = SlashSubcommandView;

    open spec fn view(&self) -> SlashSubcommandView {
        SlashSubcommandView {
            name: self.name@,
            description: opt_text(self.description),
            usage: opt_text(self.usage),
        }
    }
}

impl Clone for SlashSubcommand {
    fn clone(&self) -> (r: Self)
        ensures
            r@ == self@,
    {
        SlashSubcommand {
            name: self.name.clone(),
            description: clone_opt_text(&self.description),
            usage: clone_opt_text(&self.usage),
        }
    }
}

/// A slash command an agent currently offers.
#[derive(Debug, PartialEq)]
pub struct AvailableSlashCommand {
    pub name: String,
    pub aliases: Option<Vec<String>>,
    pub description: Option<String>,
    pub input: Option<SlashCommandInput>,
    pub subcommands: Option<Vec<SlashSubcommand>>,
    pub source: SlashCommandSource,
}

/// The content of an available slash command.
pub struct SlashCommandView {
    pub name: Seq<char>,
    pub aliases: Option<Seq<Seq<char>>>,
    pub description: Option<Seq<char>>,
    pub input: Option<Option<Seq<char>>>,
    pub subcommands: Option<Seq<SlashSubcommandView>>,
    pub source: SlashCommandSource,
}

/// The content of an optional list of subcommands.
pub open spec fn subcommands_view(value: Option<Vec<SlashSubcommand>>) -> Option<
    Seq<SlashSubcommandView>,
> {
    match value {
        Some(list) => Some(list@.map_values(|s: SlashSubcommand| s@)),
        None => None,
    }
}

impl View for AvailableSlashCommand {
    type V = SlashCommandView;

    open spec fn view(&self) -> SlashCommandView {
        SlashCommandView {
            name: self.name@,
            aliases: opt_texts(self.aliases),
            description: opt_text(self.description),
            input: match self.input {
                Some(input) => Some(opt_text(input.hint)),
                None => None,
            },
            subcommands: subcommands_view(self.subcommands),
            source: self.source,
        }
    }
}

/// Copies a list of subcommands.
fn clone_subcommands(values: &Vec<SlashSubcommand>) -> (r: Vec<SlashSubcommand>)
    ensures
        r@.map_values(|s: SlashSubcommand| s@) == values@.map_values(|s: SlashSubcommand| s@),
{
    let mut out: Vec<SlashSubcommand> = Vec::new();
    let mut i: usize = 0;
    while i < values.len()
        invariant
            i <= values.len(),
            out@.len() == i,
            forall|j: int| 0 <= j < i ==> #[trigger] out@[j]@ == values@[j]@,
        decreases values.len() - i,
    {
        out.push(values[i].clone());
        i = i + 1;
    }
    proof {
        assert(out@.map_values(|s: SlashSubcommand| s@) =~= values@.map_values(
            |s: SlashSubcommand| s@,
        ));
    }
    out
}

impl Clone for AvailableSlashCommand {
    fn clone(&self) -> (r: Self)
        ensures
            r@ == self@,
    {
        let input = match &self.input {
            Some(input) => Some(SlashCommandInput { hint: clone_opt_text(&input.hint) }),
            None => None,
        };
        let subcommands = match &self.subcommands {
            Some(list) => Some(clone_subcommands(list)),
            None => None,
        };
        AvailableSlashCommand {
            name: self.name.clone(),
            aliases: clone_opt_texts(&self.aliases),
            description: clone_opt_text(&self.description),
            input,
            subcommands,
            source: self.source,
        }
    }
}

/// The content of a list of slash commands.
pub open spec fn commands_view(commands: Seq<AvailableSlashCommand>) -> Seq<SlashCommandView> {
    commands.map_values(|c: AvailableSlashCommand| c@)
}

/// Copies a list of slash commands.
pub fn clone_commands(values: &Vec<AvailableSlashCommand>) -> (r: Vec<AvailableSlashCommand>)
    ensures
        commands_view(r@) == commands_view(values@),
{
    let mut out: Vec<AvailableSlashCommand> = Vec::new();
    let mut i: usize = 0;
    while i < values.len()
        invariant
            i <= values.len(),
            out@.len() == i,
            forall|j: int| 0 <= j < i ==> #[trigger] out@[j]@ == values@[j]@,
        decreases values.len() - i,
    {
        out.push(values[i].clone());
        i = i + 1;
    }
    proof {
        assert(commands_view(out@) =~= commands_view(values@));
    }
    out
}

} // verus!
