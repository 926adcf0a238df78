//! What a generation run is told: where to look for sources, which source to
//! start from, and whether to be talkative about it.

use vstd::prelude::*;
use vstd::string::*;

verus! {

/// The settings of a generation run.
#[derive(Debug)]
pub struct Configuration {
    /// The directory against which source names are resolved.
    search_path: String,
    /// The name of the source to start from.
    idl_file: String,
    /// Whether the run is to be talkative. The library writes nothing but the
    /// generated code and reads this flag nowhere: it is carried for the
    /// program that drives the run, which decides what to report.
    verbose: bool,
}

/// The mathematical content of a configuration.
pub struct ConfigurationView {
    pub search_path: Seq<char>,
    pub idl_file: Seq<char>,
    pub verbose: bool,
}

impl View for Configuration {
    type V = ConfigurationView;

    closed spec fn view(&self) -> ConfigurationView {
        ConfigurationView {
            search_path: self.search_path@,
            idl_file: self.idl_file@,
            verbose: self.verbose,
        }
    }
}

impl Configuration {
    /// The settings with the given search root, root source and verbosity.
    pub fn new(search_path: &str, idl_file: &str, verbose: bool) -> (config: Configuration)
        ensures
            config@ == (ConfigurationView {
                search_path: search_path@,
                idl_file: idl_file@,
                verbose,
            }),
    {
        Configuration { search_path: search_path.to_owned(), idl_file: idl_file.to_owned(), verbose }
    }

    /// The directory against which source names are resolved.
    pub fn search_path(&self) -> (path: &str)
        ensures
            path@ == self@.search_path,
    {
        self.search_path.as_str()
    }

    /// The name of the source to start from.
    pub fn idl_file(&self) -> (name: &str)
        ensures
            name@ == self@.idl_file,
    {
        self.idl_file.as_str()
    }

    /// Whether the run is to be talkative; the library itself reports nothing.
    pub fn verbose(&self) -> (verbose: bool)
        ensures
            verbose == self@.verbose,
    {
        self.verbose
    }
}

impl Default for Configuration {
    fn default() -> (config: Configuration)
        ensures
            config@ == (ConfigurationView {
                search_path: Seq::empty(),
                idl_file: Seq::empty(),
                verbose: false,
            }),
    {
        Configuration { search_path: String::new(), idl_file: String::new(), verbose: false }
    }
}

/// The search root of a loader that reads sources from files.
#[derive(Debug)]
pub struct Loader {
    search_path: String,
}

impl Loader {
    /// A loader that resolves names against `search_path`.
    pub fn new(search_path: &str) -> (loader: Loader)
        ensures
            loader.root() == search_path@,
    {
        Loader { search_path: search_path.to_owned() }
    }

    /// The directory against which this loader resolves names.
    pub closed spec fn root(&self) -> Seq<char> {
        self.search_path@
    }

    /// The directory against which this loader resolves names.
    pub fn search_path(&self) -> (path: &str)
        ensures
            path@ == self.root(),
    {
        self.search_path.as_str()
    }
}

impl Default for Loader {
    fn default() -> (loader: Loader)
        ensures
            loader.root() == Seq::<char>::empty(),
    {
        Loader { search_path: String::new() }
    }
}

} // verus!
