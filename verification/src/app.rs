//! What the command line asks for.

use crate::scan::Columns;
use vstd::prelude::*;

verus! {

/// When output is colorized.
#[derive(Clone, Copy, Debug, PartialEq, Eq, Structural)]
pub enum ColorChoice {
    Always,
    Auto,
    Never,
}

impl ColorChoice {
    /// The word that stands for the choice on the command line.
    pub open spec fn spec_name(self) -> Seq<char> {
        match self {
            ColorChoice::Always => "always"@,
            ColorChoice::Auto => "auto"@,
            ColorChoice::Never => "never"@,
        }
    }

    /// Gives the word that stands for the choice on the command line.
    pub fn name(&self) -> (word: &'static str)
        ensures
            word@ == self.spec_name(),
    {
        match self {
            ColorChoice::Always => "always",
            ColorChoice::Auto => "auto",
            ColorChoice::Never => "never",
        }
    }

    /// Whether the choice settles the matter, and which way. `Auto` leaves it
    /// to what the terminal can do.
    pub open spec fn spec_forced(self) -> Option<bool> {
        match self {
            ColorChoice::Always => Some(true),
            ColorChoice::Auto => None,
            ColorChoice::Never => Some(false),
        }
    }

    /// Tells whether the choice settles the matter, and which way.
    pub fn forced(&self) -> (answer: Option<bool>)
        ensures
            answer == self.spec_forced(),
    {
        match self {
            ColorChoice::Always => Some(true),
            ColorChoice::Auto => None,
            ColorChoice::Never => Some(false),
        }
    }
}

impl Default for ColorChoice {
    fn default() -> (choice: Self)
        ensures
            choice == ColorChoice::Auto,
    {
        ColorChoice::Auto
    }
}

/// What the classic tree view is asked to show.
#[derive(Debug)]
pub struct ViewArgs {
    /// The directory to display.
    pub path: String,
    /// When to colorize the output.
    pub color: ColorChoice,
    /// How many levels to descend, if there is a limit.
    pub level: Option<usize>,
    /// Display directories only.
    pub dirs_only: bool,
    /// Display the size of files.
    pub size: bool,
    /// Display permission bits.
    pub permissions: bool,
    /// Show hidden files too.
    pub all: bool,
    /// Respect ignore files.
    pub gitignore: bool,
    /// Display how each path differs from the repository.
    pub git_status: bool,
    /// Display an icon in front of each name.
    pub icons: bool,
}

impl Default for ViewArgs {
    fn default() -> (args: Self)
        ensures
            args.path@ == Seq::<char>::empty(),
            args.color == ColorChoice::Auto,
            args.level is None,
            !args.dirs_only,
            !args.size,
            !args.permissions,
            !args.all,
            !args.gitignore,
            !args.git_status,
            !args.icons,
    {
        ViewArgs {
            path: String::new(),
            color: ColorChoice::Auto,
            level: None,
            dirs_only: false,
            size: false,
            permissions: false,
            all: false,
            gitignore: false,
            git_status: false,
            icons: false,
        }
    }
}

/// What the interactive explorer is asked to show.
#[derive(Debug)]
pub struct InteractiveArgs {
    /// The directory to explore.
    pub path: String,
    /// Show hidden files too.
    pub all: bool,
    /// Respect ignore files.
    pub gitignore: bool,
    /// Display how each path differs from the repository.
    pub git_status: bool,
    /// Display an icon in front of each name.
    pub icons: bool,
    /// Display the size of files.
    pub size: bool,
    /// Display permission bits.
    pub permissions: bool,
    /// The depth down to which directories start expanded.
    pub expand_level: Option<usize>,
}

impl InteractiveArgs {
    /// The columns that the rows will show, and the scan has to fill.
    pub open spec fn columns(self) -> Columns {
        Columns { size: self.size, permissions: self.permissions, git_status: self.git_status }
    }

    /// Picks out the columns that the rows will show.
    pub fn to_columns(&self) -> (columns: Columns)
        ensures
            columns == self.columns(),
    {
        Columns { size: self.size, permissions: self.permissions, git_status: self.git_status }
    }
}

/// The subcommands.
#[derive(Debug)]
pub enum Commands {
    /// The interactive explorer.
    Interactive(InteractiveArgs),
}

/// A parsed command line: a subcommand, or else the classic view.
#[derive(Debug)]
pub struct Args {
    pub command: Option<Commands>,
    pub view: ViewArgs,
}

} // verus!
