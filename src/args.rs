use vstd::prelude::*;

use crate::text::{opt_view, same_text, views};

verus! {

/// The run's configuration, as given on the command line.
pub struct Args {
    /// Input and output file pairs.
    pub files: Vec<String>,
    /// Force overwrite of existing files (accepted, not consulted).
    pub force: bool,
    /// Print the encoder's command instead of running it.
    pub dry_run: bool,
    /// Extra encoder options, split on white space.
    pub options: Option<String>,
}

/// What a command line says, as plain values.
pub struct ArgsModel {
    pub files: Seq<Seq<char>>,
    pub force: bool,
    pub dry_run: bool,
    pub options: Option<Seq<char>>,
}

impl View for Args {
    type V = ArgsModel;

    open spec fn view(&self) -> ArgsModel {
        ArgsModel {
            files: views(self.files@),
            force: self.force,
            dry_run: self.dry_run,
            options: opt_view(self.options),
        }
    }
}

/// Why a command line gives no configuration.
#[derive(Debug)]
pub enum ArgsError {
    /// No file was named.
    MissingFiles,
    /// The option, the last token, wants a value.
    MissingValue(String),
    /// A token that starts with '-' names no option.
    UnknownArgument(String),
    /// `--help` or `-h` was given.
    HelpRequested,
    /// `--version` or `-V` was given.
    VersionRequested,
}

/// `ArgsError` as plain values.
pub enum ArgsFailure {
    MissingFiles,
    MissingValue(Seq<char>),
    UnknownArgument(Seq<char>),
    HelpRequested,
    VersionRequested,
}

impl View for ArgsError {
    type V = ArgsFailure;

    open spec fn view(&self) -> ArgsFailure {
        match self {
            ArgsError::MissingFiles => ArgsFailure::MissingFiles,
            ArgsError::MissingValue(s) => ArgsFailure::MissingValue(s@),
            ArgsError::UnknownArgument(s) => ArgsFailure::UnknownArgument(s@),
            ArgsError::HelpRequested => ArgsFailure::HelpRequested,
            ArgsError::VersionRequested => ArgsFailure::VersionRequested,
        }
    }
}

/// Whether a token is read as an option rather than a file: it starts with '-' and is
/// longer than that one character.
pub open spec fn is_option_token(a: Seq<char>) -> bool {
    a.len() > 1 && a[0] == '-'
}

/// The configuration that the tokens `t` give, after the tokens read so far gave `acc`.
/// After a `--` token every token is a file.
pub open spec fn parse_tokens(t: Seq<Seq<char>>, acc: ArgsModel, files_only: bool) -> Result<
    ArgsModel,
    ArgsFailure,
>
    decreases t.len(),
{
    if t.len() == 0 {
        if acc.files.len() == 0 {
            Err(ArgsFailure::MissingFiles)
        } else {
            Ok(acc)
        }
    } else {
        let a = t[0];
        let rest = t.drop_first();
        if files_only || !is_option_token(a) {
            parse_tokens(rest, ArgsModel { files: acc.files.push(a), ..acc }, files_only)
        } else if a == "--"@ {
            parse_tokens(rest, acc, true)
        } else if a == "--help"@ || a == "-h"@ {
            Err(ArgsFailure::HelpRequested)
        } else if a == "--version"@ || a == "-V"@ {
            Err(ArgsFailure::VersionRequested)
        } else if a == "--force"@ || a == "-f"@ {
            parse_tokens(rest, ArgsModel { force: true, ..acc }, false)
        } else if a == "--dry-run"@ || a == "-d"@ {
            parse_tokens(rest, ArgsModel { dry_run: true, ..acc }, false)
        } else if a == "--options"@ || a == "-o"@ {
            if rest.len() == 0 {
                Err(ArgsFailure::MissingValue(a))
            } else {
                parse_tokens(rest.drop_first(), ArgsModel { options: Some(rest[0]), ..acc }, false)
            }
        } else {
            Err(ArgsFailure::UnknownArgument(a))
        }
    }
}

/// The configuration that a command line gives; its first token names the program.
pub open spec fn parse_command_line(argv: Seq<Seq<char>>) -> Result<ArgsModel, ArgsFailure> {
    let empty = ArgsModel { files: seq![], force: false, dry_run: false, options: None };
    if argv.len() == 0 {
        Err(ArgsFailure::MissingFiles)
    } else {
        parse_tokens(argv.drop_first(), empty, false)
    }
}

/// Views of a slice of string slices.
pub open spec fn str_views(v: Seq<&str>) -> Seq<Seq<char>> {
    v.map_values(|s: &str| s@)
}

impl Args {
    /// Reads a command line (the program's name first, then files and options).
    pub fn try_parse_from(argv: &[&str]) -> (r: Result<Args, ArgsError>)
        ensures
            match parse_command_line(str_views(argv@)) {
                Ok(m) => r matches Ok(a) && a@ == m,
                Err(e) => r matches Err(x) && x@ == e,
            },
    {
        let ghost toks = str_views(argv@);
        let n = argv.len();
        if n == 0 {
            return Err(ArgsError::MissingFiles);
        }
        let mut files: Vec<String> = Vec::new();
        let mut force = false;
        let mut dry_run = false;
        let mut options: Option<String> = None;
        let mut files_only = false;
        let mut i: usize = 1;
        assert(toks.subrange(1, n as int) =~= toks.drop_first());
        assert(views(files@) =~= Seq::<Seq<char>>::empty());
        while i < n
            invariant
                1 <= i <= n == argv@.len(),
                toks == str_views(argv@),
                parse_command_line(toks) == parse_tokens(
                    toks.subrange(i as int, n as int),
                    ArgsModel { files: views(files@), force, dry_run, options: opt_view(options) },
                    files_only,
                ),
            decreases n - i,
        {
            let a: &str = argv[i];
            let ghost t = toks.subrange(i as int, n as int);
            assert(t[0] == a@);
            assert(t.drop_first() =~= toks.subrange(i + 1, n as int));
            let option_like = a.unicode_len() > 1 && a.get_char(0) == '-';
            if files_only || !option_like {
                let ghost before = files@;
                files.push(String::from_str(a));
                assert(views(files@) =~= views(before).push(a@));
                i = i + 1;
            } else if same_text(a, "--") {
                files_only = true;
                i = i + 1;
            } else if same_text(a, "--help") || same_text(a, "-h") {
                return Err(ArgsError::HelpRequested);
            } else if same_text(a, "--version") || same_text(a, "-V") {
                return Err(ArgsError::VersionRequested);
            } else if same_text(a, "--force") || same_text(a, "-f") {
                force = true;
                i = i + 1;
            } else if same_text(a, "--dry-run") || same_text(a, "-d") {
                dry_run = true;
                i = i + 1;
            } else if same_text(a, "--options") || same_text(a, "-o") {
                if i + 1 == n {
                    return Err(ArgsError::MissingValue(String::from_str(a)));
                }
                assert(t.drop_first()[0] == argv@[i + 1]@);
                assert(t.drop_first().drop_first() =~= toks.subrange(i + 2, n as int));
                options = Some(String::from_str(argv[i + 1]));
                i = i + 2;
            } else {
                return Err(ArgsError::UnknownArgument(String::from_str(a)));
            }
        }
        if files.len() == 0 {
            return Err(ArgsError::MissingFiles);
        }
        Ok(Args { files, force, dry_run, options })
    }
}

} // verus!
