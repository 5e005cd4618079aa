use vstd::prelude::*;

use crate::text::str_eq;

verus! {

/// The command line options: the directory that file routes serve, if given.
pub struct Args {
    directory: Option<String>,
}

struct ArgsBuilder {
    directory: Option<String>,
}

/// A command line that cannot be read.
#[derive(Debug)]
pub enum ArgsError {
    /// An argument other than `--directory`.
    UnknownArgument(String),
    /// `--directory` as the last argument, with no path after it.
    MissingDirectory,
}

pub enum ArgsErrorView {
    UnknownArgument(Seq<char>),
    MissingDirectory,
}

impl View for ArgsError {
    type V = ArgsErrorView;

    open spec fn view(&self) -> ArgsErrorView {
        match self {
            ArgsError::UnknownArgument(a) => ArgsErrorView::UnknownArgument(a@),
            ArgsError::MissingDirectory => ArgsErrorView::MissingDirectory,
        }
    }
}

pub open spec fn opt_string_view(o: Option<String>) -> Option<Seq<char>> {
    match o {
        Some(s) => Some(s@),
        None => None,
    }
}

impl View for Args {
    type V = Option<Seq<char>>;

    closed spec fn view(&self) -> Option<Seq<char>> {
        opt_string_view(self.directory)
    }
}

/// The directory that the arguments from `i` on give, starting from `dir`: each
/// `--directory <path>` replaces it; anything else is refused.
pub open spec fn parse_args_from(args: Seq<Seq<char>>, i: int, dir: Option<Seq<char>>) -> Result<
    Option<Seq<char>>,
    ArgsErrorView,
>
    decreases args.len() - i,
{
    if i < 0 || i >= args.len() {
        Ok(dir)
    } else if args[i] == "--directory"@ {
        if i + 1 < args.len() {
            parse_args_from(args, i + 2, Some(args[i + 1]))
        } else {
            Err(ArgsErrorView::MissingDirectory)
        }
    } else {
        Err(ArgsErrorView::UnknownArgument(args[i]))
    }
}

/// The directory that a command line (without the program name) gives.
pub open spec fn parse_args(args: Seq<Seq<char>>) -> Result<Option<Seq<char>>, ArgsErrorView> {
    parse_args_from(args, 0, None)
}

impl Args {
    /// Reads the arguments that follow the program name.
    pub fn from_args(args: &Vec<String>) -> (r: Result<Args, ArgsError>)
        ensures
            match r {
                Ok(a) => parse_args(args@.map_values(|s: String| s@)) == Ok::<_, ArgsErrorView>(a@),
                Err(e) => parse_args(args@.map_values(|s: String| s@)) == Err::<Option<Seq<char>>, _>(e@),
            },
    {
        let ghost v = args@.map_values(|s: String| s@);
        let mut args_builder = ArgsBuilder::new();
        let mut i: usize = 0;
        while i < args.len()
            invariant
                i <= args@.len(),
                v == args@.map_values(|s: String| s@),
                parse_args(v) == parse_args_from(v, i as int, opt_string_view(args_builder.directory)),
            decreases args@.len() - i,
        {
            if str_eq(args[i].as_str(), "--directory") {
                if i + 1 < args.len() {
                    args_builder.with_directory(args[i + 1].clone());
                    i = i + 2;
                } else {
                    return Err(ArgsError::MissingDirectory);
                }
            } else {
                return Err(ArgsError::UnknownArgument(args[i].clone()));
            }
        }
        Ok(args_builder.build())
    }

    /// Takes the directory out, leaving none.
    pub fn take_directory(&mut self) -> (r: Option<String>)
        ensures
            opt_string_view(r) == old(self)@,
            final(self)@ is None,
    {
        self.directory.take()
    }

    fn new(directory: Option<String>) -> (r: Args)
        ensures
            r@ == opt_string_view(directory),
    {
        Args { directory }
    }
}

impl ArgsBuilder {
    fn new() -> (r: ArgsBuilder)
        ensures
            r.directory is None,
    {
        ArgsBuilder { directory: None }
    }

    fn with_directory(&mut self, directory: String)
        ensures
            opt_string_view(final(self).directory) == Some(directory@),
    {
        self.directory = Some(directory);
    }

    fn build(self) -> (r: Args)
        ensures
            r@ == opt_string_view(self.directory),
    {
        Args::new(self.directory)
    }
}

/// The server's configuration, fixed at startup and only read afterwards.
pub struct Config {
    directory: Option<String>,
}

impl View for Config {
    type V = Option<Seq<char>>;

    closed spec fn view(&self) -> Option<Seq<char>> {
        opt_string_view(self.directory)
    }
}

impl Config {
    pub fn new(directory: Option<String>) -> (r: Config)
        ensures
            r@ == opt_string_view(directory),
    {
        Config { directory }
    }

    pub fn directory(&self) -> (r: Option<&String>)
        ensures
            match r {
                Some(d) => self@ == Some(d@),
                None => self@ is None,
            },
    {
        self.directory.as_ref()
    }
}

} // verus!
