//! The settings of the tool and how they combine with what the command line gives.

use crate::output::OutputFormat;
use crate::models::{copy_opt_string, opt_text};
use crate::text::{
    copy_strings, lemma_texts_push, pieces, split_at_char, texts, trim, trimmed,
};
use std::path::PathBuf;
use vstd::prelude::*;

verus! {

/// The settings file as a value.
#[derive(Debug)]
pub struct Config {
    /// Default output format
    pub default_format: Option<OutputFormat>,
    /// Default output directory
    pub default_output_dir: Option<PathBuf>,
    /// Default categories to filter
    pub default_categories: Option<Vec<String>>,
    /// Enable verbose logging by default
    pub verbose: Option<bool>,
    /// Default network depth
    pub default_network_depth: Option<u32>,
    /// API settings
    pub api: ApiConfig,
    /// UI settings
    pub ui: UiConfig,
}

/// Settings of the catalogue's interface.
#[derive(Debug)]
pub struct ApiConfig {
    /// Custom base URL of the catalogue's interface
    pub base_url: Option<String>,
    /// Request timeout in seconds
    pub timeout_seconds: Option<u64>,
    /// Maximum retries for failed requests
    pub max_retries: Option<u32>,
    /// Delay between requests in milliseconds
    pub request_delay_ms: Option<u64>,
}

/// Settings of the display.
#[derive(Debug)]
pub struct UiConfig {
    /// Show progress bars
    pub show_progress: Option<bool>,
    /// Use colored output
    pub use_colors: Option<bool>,
    /// Progress bar style
    pub progress_style: Option<String>,
}

/// The characters of an optional list of strings.
pub open spec fn opt_texts(list: Option<Vec<String>>) -> Option<Seq<Seq<char>>> {
    match list {
        Some(v) => Some(texts(v@)),
        None => None,
    }
}

/// The pieces of `s` between its commas, each without the white space around it.
pub open spec fn listed(s: Seq<char>) -> Seq<Seq<char>> {
    Seq::new(pieces(s, ',').len(), |i: int| trimmed(pieces(s, ',')[i]))
}

impl Default for ApiConfig {
    fn default() -> (r: Self)
        ensures
            r.base_url is Some && r.base_url->0@ == "https://inspirehep.net/api"@,
            r.timeout_seconds == Some(30u64),
            r.max_retries == Some(3u32),
            r.request_delay_ms == Some(100u64),
    {
        ApiConfig {
            base_url: Some("https://inspirehep.net/api".to_owned()),
            timeout_seconds: Some(30),
            max_retries: Some(3),
            request_delay_ms: Some(100),
        }
    }
}

impl Default for UiConfig {
    fn default() -> (r: Self)
        ensures
            r.show_progress == Some(true),
            r.use_colors == Some(true),
            r.progress_style is Some && r.progress_style->0@
                == "{spinner:.green} [{elapsed_precise}] [{bar:40.cyan/blue}] {pos}/{len} {msg}"@,
    {
        UiConfig {
            show_progress: Some(true),
            use_colors: Some(true),
            progress_style: Some(
                "{spinner:.green} [{elapsed_precise}] [{bar:40.cyan/blue}] {pos}/{len} {msg}".to_owned(),
            ),
        }
    }
}

impl Default for Config {
    fn default() -> (r: Self)
        ensures
            r.default_format == Some(OutputFormat::Json),
            r.default_output_dir is None,
            r.default_categories is None,
            r.verbose == Some(false),
            r.default_network_depth == Some(1u32),
            r.api.base_url is Some && r.api.base_url->0@ == "https://inspirehep.net/api"@,
            r.api.timeout_seconds == Some(30u64),
            r.api.max_retries == Some(3u32),
            r.api.request_delay_ms == Some(100u64),
            r.ui.show_progress == Some(true),
            r.ui.use_colors == Some(true),
            r.ui.progress_style is Some && r.ui.progress_style->0@
                == "{spinner:.green} [{elapsed_precise}] [{bar:40.cyan/blue}] {pos}/{len} {msg}"@,
    {
        Config {
            default_format: Some(OutputFormat::Json),
            default_output_dir: None,
            default_categories: None,
            verbose: Some(false),
            default_network_depth: Some(1),
            api: ApiConfig::default(),
            ui: UiConfig::default(),
        }
    }
}

/// Trusted: `PathBuf::clone`, which gives a path equal to the one it is called on.
#[verifier::external_body]
fn copy_path(path: &PathBuf) -> (r: PathBuf)
    ensures
        r == *path,
{
    path.clone()
}

impl Clone for ApiConfig {
    fn clone(&self) -> (r: Self)
        ensures
            opt_text(r.base_url) == opt_text(self.base_url),
            r.timeout_seconds == self.timeout_seconds,
            r.max_retries == self.max_retries,
            r.request_delay_ms == self.request_delay_ms,
    {
        ApiConfig {
            base_url: copy_opt_string(&self.base_url),
            timeout_seconds: self.timeout_seconds,
            max_retries: self.max_retries,
            request_delay_ms: self.request_delay_ms,
        }
    }
}

impl Clone for UiConfig {
    fn clone(&self) -> (r: Self)
        ensures
            r.show_progress == self.show_progress,
            r.use_colors == self.use_colors,
            opt_text(r.progress_style) == opt_text(self.progress_style),
    {
        UiConfig {
            show_progress: self.show_progress,
            use_colors: self.use_colors,
            progress_style: copy_opt_string(&self.progress_style),
        }
    }
}

impl Clone for Config {
    fn clone(&self) -> (r: Self)
        ensures
            r.default_format == self.default_format,
            r.default_output_dir == self.default_output_dir,
            opt_texts(r.default_categories) == opt_texts(self.default_categories),
            r.verbose == self.verbose,
            r.default_network_depth == self.default_network_depth,
            opt_text(r.api.base_url) == opt_text(self.api.base_url),
            r.api.timeout_seconds == self.api.timeout_seconds,
            r.api.max_retries == self.api.max_retries,
            r.api.request_delay_ms == self.api.request_delay_ms,
            r.ui.show_progress == self.ui.show_progress,
            r.ui.use_colors == self.ui.use_colors,
            opt_text(r.ui.progress_style) == opt_text(self.ui.progress_style),
    {
        Config {
            default_format: self.default_format,
            default_output_dir: match &self.default_output_dir {
                Some(path) => Some(copy_path(path)),
                None => None,
            },
            default_categories: match &self.default_categories {
                Some(list) => Some(copy_strings(list)),
                None => None,
            },
            verbose: self.verbose,
            default_network_depth: self.default_network_depth,
            api: self.api.clone(),
            ui: self.ui.clone(),
        }
    }
}

impl Config {
    /// The output format: what the command line gives, else the configured
    /// default, else JSON.
    pub fn effective_format(&self, cli_format: Option<OutputFormat>) -> (r: OutputFormat)
        ensures
            r == match cli_format {
                Some(format) => format,
                None => match self.default_format {
                    Some(format) => format,
                    None => OutputFormat::Json,
                },
            },
    {
        match cli_format {
            Some(format) => format,
            None => match self.default_format {
                Some(format) => format,
                None => OutputFormat::Json,
            },
        }
    }

    /// The output directory: what the command line gives, else the configured
    /// default.
    pub fn effective_output_dir(&self, cli_output: Option<PathBuf>) -> (r: Option<PathBuf>)
        ensures
            r == match cli_output {
                Some(path) => Some(path),
                None => self.default_output_dir,
            },
    {
        match cli_output {
            Some(path) => Some(path),
            None => match &self.default_output_dir {
                Some(path) => Some(copy_path(path)),
                None => None,
            },
        }
    }

    /// The categories to filter by: the comma-separated list of the command line,
    /// each entry trimmed, else the configured default.
    pub fn effective_categories(&self, cli_categories: Option<String>) -> (r: Option<Vec<String>>)
        ensures
            opt_texts(r) == match cli_categories {
                Some(list) => Some(listed(list@)),
                None => opt_texts(self.default_categories),
            },
    {
        match cli_categories {
            Some(list) => {
                let parts = split_at_char(list.as_str(), ',');
                let mut out: Vec<String> = Vec::new();
                let n = parts.len();
                let mut i: usize = 0;
                assert(texts(out@) =~= listed(list@).take(0));
                while i < n
                    invariant
                        n == parts.len(),
                        texts(parts@) == pieces(list@, ','),
                        i <= n,
                        texts(out@) == listed(list@).take(i as int),
                    decreases n - i,
                {
                    let entry = trim(parts[i].as_str());
                    proof {
                        assert(texts(parts@)[i as int] == parts@[i as int]@);
                        lemma_texts_push(out@, entry);
                        assert(listed(list@).take(i + 1) =~= listed(list@).take(i as int).push(
                            entry@,
                        ));
                    }
                    out.push(entry);
                    i = i + 1;
                }
                assert(listed(list@).take(n as int) =~= listed(list@));
                Some(out)
            },
            None => match &self.default_categories {
                Some(list) => Some(copy_strings(list)),
                None => None,
            },
        }
    }

    /// Whether to log verbosely: the command line asks for it, or the
    /// configuration does.
    pub fn effective_verbose(&self, cli_verbose: bool) -> (r: bool)
        ensures
            r == (cli_verbose || self.verbose == Some(true)),
    {
        cli_verbose || match self.verbose {
            Some(verbose) => verbose,
            None => false,
        }
    }
}

} // verus!
