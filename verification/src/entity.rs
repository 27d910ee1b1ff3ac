//! The entities that flow through the pipeline, and their canonical projections.

use vstd::prelude::*;
use vstd::string::StringExecFns;

verus! {

/// What the pipeline reads of an application entry of the desktop catalog.
#[derive(Clone, Debug)]
pub struct DesktopInfo {
    /// The identifier of the entry in the catalog.
    pub id: String,
    /// The display name of the entry, where it has one.
    pub name: Option<String>,
    /// Whether the entry asks not to be shown in menus.
    pub no_display: bool,
    /// The command line of the entry, where it has one.
    pub command_line: Option<String>,
}

/// A configured task.
#[derive(Clone, Debug)]
pub struct TaskItem {
    /// The name under which the task is shown.
    pub name: String,
    /// A shell command that decides whether the task is shown at all.
    pub show_if: Option<String>,
    /// The shell command that the task runs.
    pub command: String,
}

/// The origin of an entity.
#[derive(Clone, Copy, PartialEq, Eq, Structural, Debug)]
pub enum Kind {
    Desktop,
    Calc,
    Stdin,
    Task,
}

/// An entity: one variant per origin.
#[derive(Clone, Debug)]
pub enum Item {
    /// An application entry of the desktop catalog.
    Desktop(DesktopInfo),
    /// A result computed from the query.
    Calc(String),
    /// A line of text read from standard input.
    Stdin(String),
    /// A configured task.
    Task(TaskItem),
}

impl Kind {
    /// The name of the variant.
    pub open spec fn text(self) -> Seq<char> {
        match self {
            Kind::Desktop => "Desktop"@,
            Kind::Calc => "Calc"@,
            Kind::Stdin => "Stdin"@,
            Kind::Task => "Task"@,
        }
    }

    /// The name of the variant, as it is shown and as identifiers are derived from it.
    pub fn name(self) -> (name: &'static str)
        ensures
            name@ == self.text(),
    {
        match self {
            Kind::Desktop => "Desktop",
            Kind::Calc => "Calc",
            Kind::Stdin => "Stdin",
            Kind::Task => "Task",
        }
    }
}

impl Item {
    /// The origin of the entity.
    pub open spec fn kind_of(&self) -> Kind {
        match self {
            Item::Desktop(_) => Kind::Desktop,
            Item::Calc(_) => Kind::Calc,
            Item::Stdin(_) => Kind::Stdin,
            Item::Task(_) => Kind::Task,
        }
    }

    /// The canonical string of the entity: the name of a catalog entry, or its
    /// identifier where it has no name; the text of a result or of a line; the name
    /// of a task.
    pub open spec fn label_text(&self) -> Seq<char> {
        match self {
            Item::Desktop(entry) => match entry.name {
                Some(name) => name@,
                None => entry.id@,
            },
            Item::Calc(text) => text@,
            Item::Stdin(text) => text@,
            Item::Task(task) => task.name@,
        }
    }

    /// The string inside the entity that is its canonical string.
    pub open spec fn label_of(&self) -> String {
        match self {
            Item::Desktop(entry) => match entry.name {
                Some(name) => name,
                None => entry.id,
            },
            Item::Calc(text) => *text,
            Item::Stdin(text) => *text,
            Item::Task(task) => task.name,
        }
    }

    /// The identifier under which selections of the entity are counted: the name of
    /// its variant, a hyphen, and its canonical string.
    pub open spec fn usage_ident_text(&self) -> Seq<char> {
        self.kind_of().text() + "-"@ + self.label_text()
    }

    /// The origin of the entity.
    pub fn kind(&self) -> (kind: Kind)
        ensures
            kind == self.kind_of(),
    {
        match self {
            Item::Desktop(_) => Kind::Desktop,
            Item::Calc(_) => Kind::Calc,
            Item::Stdin(_) => Kind::Stdin,
            Item::Task(_) => Kind::Task,
        }
    }

    /// Whether the entity is a catalog entry.
    pub fn is_desktop(&self) -> (yes: bool)
        ensures
            yes == (self is Desktop),
    {
        match self {
            Item::Desktop(_) => true,
            _ => false,
        }
    }

    /// Whether the entity is a computed result.
    pub fn is_calc(&self) -> (yes: bool)
        ensures
            yes == (self is Calc),
    {
        match self {
            Item::Calc(_) => true,
            _ => false,
        }
    }

    /// Whether the entity is a line of standard input.
    pub fn is_stdin(&self) -> (yes: bool)
        ensures
            yes == (self is Stdin),
    {
        match self {
            Item::Stdin(_) => true,
            _ => false,
        }
    }

    /// Whether the entity is a task.
    pub fn is_task(&self) -> (yes: bool)
        ensures
            yes == (self is Task),
    {
        match self {
            Item::Task(_) => true,
            _ => false,
        }
    }

    /// The catalog entry, if the entity is one.
    pub fn try_as_desktop(self) -> (entry: Option<DesktopInfo>)
        ensures
            entry == match self {
                Item::Desktop(inner) => Some(inner),
                _ => None,
            },
    {
        match self {
            Item::Desktop(inner) => Some(inner),
            _ => None,
        }
    }

    /// The text of the computed result, if the entity is one.
    pub fn try_as_calc(self) -> (text: Option<String>)
        ensures
            text == match self {
                Item::Calc(inner) => Some(inner),
                _ => None,
            },
    {
        match self {
            Item::Calc(inner) => Some(inner),
            _ => None,
        }
    }

    /// The line of standard input, if the entity is one.
    pub fn try_as_stdin(self) -> (text: Option<String>)
        ensures
            text == match self {
                Item::Stdin(inner) => Some(inner),
                _ => None,
            },
    {
        match self {
            Item::Stdin(inner) => Some(inner),
            _ => None,
        }
    }

    /// The task, if the entity is one.
    pub fn try_as_task(self) -> (task: Option<TaskItem>)
        ensures
            task == match self {
                Item::Task(inner) => Some(inner),
                _ => None,
            },
    {
        match self {
            Item::Task(inner) => Some(inner),
            _ => None,
        }
    }

    /// The canonical string of the entity.
    pub fn label(&self) -> (label: String)
        ensures
            label == self.label_of(),
            label@ == self.label_text(),
    {
        match self {
            Item::Desktop(entry) => match &entry.name {
                Some(name) => name.clone(),
                None => entry.id.clone(),
            },
            Item::Calc(text) => text.clone(),
            Item::Stdin(text) => text.clone(),
            Item::Task(task) => task.name.clone(),
        }
    }

    /// The identifier under which selections of the entity are counted.
    pub fn usage_ident(&self) -> (ident: String)
        ensures
            ident@ == self.usage_ident_text(),
    {
        let mut ident = String::from_str(self.kind().name());
        ident.append("-");
        let label = self.label();
        ident.append(label.as_str());
        ident
    }
}

impl From<&Item> for String {
    /// The canonical string of the entity.
    fn from(val: &Item) -> (label: String) {
        val.label()
    }
}

impl vstd::std_specs::convert::FromSpecImpl<&Item> for String {
    open spec fn obeys_from_spec() -> bool {
        true
    }

    open spec fn from_spec(val: &Item) -> String {
        val.label_of()
    }
}

/// The names of different variants differ in their first character.
pub proof fn lemma_kind_names_differ(one: Kind, other: Kind)
    requires
        one != other,
    ensures
        one.text().len() > 0,
        other.text().len() > 0,
        one.text()[0] != other.text()[0],
{
    reveal_strlit("Desktop");
    reveal_strlit("Calc");
    reveal_strlit("Stdin");
    reveal_strlit("Task");
}

/// Identifiers do not collide: two entities have the same identifier only if they
/// are of the same variant and have the same canonical string.
pub proof fn lemma_usage_ident_injective(one: &Item, other: &Item)
    requires
        one.usage_ident_text() == other.usage_ident_text(),
    ensures
        one.kind_of() == other.kind_of(),
        one.label_text() == other.label_text(),
{
    reveal_strlit("Desktop");
    reveal_strlit("Calc");
    reveal_strlit("Stdin");
    reveal_strlit("Task");
    reveal_strlit("-");
    let a = one.usage_ident_text();
    let b = other.usage_ident_text();
    if one.kind_of() != other.kind_of() {
        lemma_kind_names_differ(one.kind_of(), other.kind_of());
        assert(a[0] == one.kind_of().text()[0]);
        assert(b[0] == other.kind_of().text()[0]);
    }
    let prefix = one.kind_of().text() + "-"@;
    assert(a.skip(prefix.len() as int) =~= one.label_text());
    assert(b.skip(prefix.len() as int) =~= other.label_text());
}

/// What the program was asked to offer.
#[derive(Clone, Copy, PartialEq, Eq, Structural, Debug)]
pub enum Commands {
    /// The configured tasks.
    Task,
    /// The applications of the desktop catalog, and a calculator.
    Launch,
    /// The lines of standard input.
    Stdin,
}

impl Commands {
    /// The namespace under which the command counts selections; empty where it
    /// counts none.
    pub open spec fn type_ident_text(self) -> Seq<char> {
        match self {
            Commands::Task => "yurf-task"@,
            Commands::Launch => "yurf"@,
            Commands::Stdin => ""@,
        }
    }

    /// The commands that count selections do so under different namespaces.
    pub proof fn lemma_namespaces_differ(self, other: Commands)
        requires
            self != other,
        ensures
            self.type_ident_text() != other.type_ident_text(),
    {
        reveal_strlit("yurf-task");
        reveal_strlit("yurf");
        reveal_strlit("");
        assert(self.type_ident_text().len() != other.type_ident_text().len());
    }

    /// The namespace under which the command counts selections.
    pub fn type_ident(&self) -> (ident: String)
        ensures
            ident@ == self.type_ident_text(),
    {
        let name = match self {
            Commands::Task => "yurf-task",
            Commands::Launch => "yurf",
            _ => "",
        };
        String::from_str(name)
    }

    /// Whether the command offers the tasks.
    pub fn is_task(&self) -> (yes: bool)
        ensures
            yes == (*self == Commands::Task),
    {
        match self {
            Commands::Task => true,
            _ => false,
        }
    }

    /// Whether the command offers the applications.
    pub fn is_launch(&self) -> (yes: bool)
        ensures
            yes == (*self == Commands::Launch),
    {
        match self {
            Commands::Launch => true,
            _ => false,
        }
    }

    /// Whether the command offers the lines of standard input.
    pub fn is_stdin(&self) -> (yes: bool)
        ensures
            yes == (*self == Commands::Stdin),
    {
        match self {
            Commands::Stdin => true,
            _ => false,
        }
    }
}

} // verus!
