//! The run's configuration and the checks made on it before any parsing.
use crate::parser::{join_root, resolved_path};
use vstd::prelude::*;

verus! {

/// What a run is asked to do.
#[derive(Clone, Debug)]
pub struct Args {
    /// The root directory to use.
    pub root: String,
    /// The input file to read from.
    pub input: String,
    /// The output file to write to.
    pub output: String,
    /// Whether to minify the output.
    pub minify: bool,
    /// Whether to beautify the output.
    pub beautify: bool,
}

/// A configuration that no run can carry out.
#[derive(Clone, Copy, Debug, PartialEq, Eq, Structural)]
pub enum ConfigError {
    /// The input and output paths are the same.
    SameInputOutput,
    /// Both minification and beautification were asked for.
    MinifyAndBeautify,
}

/// The formatter preset applied to the bundled output.
#[derive(Clone, Copy, Debug, PartialEq, Eq, Structural)]
pub enum Preset {
    Default,
    /// Dense, minified output.
    Dense,
    /// Readable, beautified output.
    Readable,
}

impl Args {
    /// The same configuration with input and output taken relative to the root.
    pub fn rooted(self) -> (r: Args)
        ensures
            r.root == self.root,
            r.input@ == resolved_path(self.root@, self.input@),
            r.output@ == resolved_path(self.root@, self.output@),
            r.minify == self.minify,
            r.beautify == self.beautify,
    {
        let input = join_root(&self.root, &self.input);
        let output = join_root(&self.root, &self.output);
        Args { root: self.root, input, output, minify: self.minify, beautify: self.beautify }
    }

    /// Rejects a run whose input is its output, then one asked both to minify
    /// and to beautify.
    pub fn validate(&self) -> (r: Result<(), ConfigError>)
        ensures
            self.input@ == self.output@ ==> r == Err::<(), ConfigError>(ConfigError::SameInputOutput),
            self.input@ != self.output@ && self.minify && self.beautify ==> r == Err::<(), ConfigError>(
                ConfigError::MinifyAndBeautify,
            ),
            r is Ok <==> self.input@ != self.output@ && !(self.minify && self.beautify),
    {
        if self.input == self.output {
            Err(ConfigError::SameInputOutput)
        } else if self.minify && self.beautify {
            Err(ConfigError::MinifyAndBeautify)
        } else {
            Ok(())
        }
    }

    /// The formatter preset: dense when minifying, readable when beautifying.
    pub fn preset(&self) -> (r: Preset)
        ensures
            self.minify ==> r == Preset::Dense,
            !self.minify && self.beautify ==> r == Preset::Readable,
            !self.minify && !self.beautify ==> r == Preset::Default,
    {
        if self.minify {
            Preset::Dense
        } else if self.beautify {
            Preset::Readable
        } else {
            Preset::Default
        }
    }
}

} // verus!
