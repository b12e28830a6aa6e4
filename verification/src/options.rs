//! Configuration: the recognized options, their defaults, and how command
//! line values override what a config file loaded.
//!
//! Reading the config file, the environment and the command line happens at
//! the program's edge; what arrives here are plain values.

use vstd::prelude::*;

use crate::text::chars_of;

verus! {

/// Which browser backend drives browser steps.
#[derive(Debug, Clone, Copy, PartialEq, Eq, Structural)]
pub enum ToolproofBrowserImpl {
    Chrome,
    Pagebrowse,
}

/// One shell command to run before any test starts.
#[derive(Debug)]
pub struct ToolproofBeforeAll {
    pub command: String,
}

/// The recognized options.
#[derive(Debug)]
pub struct ToolproofParams {
    /// Where to look for test files.
    pub root: Option<String>,
    /// Print verbose logging while running tests.
    pub verbose: bool,
    /// Reduce logging to be stable across runs.
    pub porcelain: bool,
    /// Run interactively, offering snapshot review.
    pub interactive: bool,
    /// Run all tests even in interactive mode.
    pub all: bool,
    /// Run only the test with exactly this name.
    pub run_name: Option<String>,
    /// Run only the tests whose locations start with this path.
    pub run_path: Option<String>,
    /// The browser backend to use.
    pub browser: ToolproofBrowserImpl,
    /// How many tests run concurrently.
    pub concurrency: usize,
    /// Seconds until a single step times out.
    pub timeout: u64,
    /// The character sequence that delimits placeholders.
    pub placeholder_delimiter: String,
    /// Placeholder keys and the values that replace them.
    pub placeholders: Vec<(String, String)>,
    /// Commands to run in the working directory before the tests.
    pub before_all: Vec<ToolproofBeforeAll>,
    /// Skip the before_all commands.
    pub skip_hooks: bool,
    /// How many times failing tests are retried.
    pub retry_count: usize,
    /// Where to write a screenshot of the browser when a test fails.
    pub failure_screenshot_location: Option<String>,
    /// A semver requirement the running binary must meet.
    pub supported_versions: Option<String>,
    /// Pause on failure for inspection; needs a single named test.
    pub debugger: bool,
}

impl Default for ToolproofParams {
    /// The defaults: ten concurrent tests, ten seconds per step, `%` as the
    /// placeholder delimiter, no retries, and everything else off or empty.
    fn default() -> (r: Self)
        ensures
            r.root is None,
            !r.verbose,
            !r.porcelain,
            !r.interactive,
            !r.all,
            r.run_name is None,
            r.run_path is None,
            r.browser == ToolproofBrowserImpl::Chrome,
            r.concurrency == 10,
            r.timeout == 10,
            r.placeholder_delimiter@ == seq!['%'],
            r.placeholders@.len() == 0,
            r.before_all@.len() == 0,
            !r.skip_hooks,
            r.retry_count == 0,
            r.failure_screenshot_location is None,
            r.supported_versions is None,
            !r.debugger,
    {
        let mut delim: Vec<char> = Vec::new();
        delim.push('%');
        proof {
            assert(delim@ =~= seq!['%']);
        }
        ToolproofParams {
            root: Option::None,
            verbose: false,
            porcelain: false,
            interactive: false,
            all: false,
            run_name: Option::None,
            run_path: Option::None,
            browser: ToolproofBrowserImpl::Chrome,
            concurrency: 10,
            timeout: 10,
            placeholder_delimiter: crate::text::string_from_chars(&delim),
            placeholders: Vec::new(),
            before_all: Vec::new(),
            skip_hooks: false,
            retry_count: 0,
            failure_screenshot_location: Option::None,
            supported_versions: Option::None,
            debugger: false,
        }
    }
}

/// What the command line supplied: a value overrides the configuration, a
/// missing value leaves it alone; the flags only ever switch on.
#[derive(Debug)]
pub struct CliOverrides {
    pub root: Option<String>,
    pub concurrency: Option<usize>,
    pub placeholders: Vec<(String, String)>,
    pub placeholder_delimiter: Option<String>,
    pub verbose: bool,
    pub porcelain: bool,
    pub interactive: bool,
    pub all: bool,
    pub skip_hooks: bool,
    pub timeout: Option<u64>,
    pub run_name: Option<String>,
    pub browser: Option<ToolproofBrowserImpl>,
}

/// Append every pair of `src` to `dst`, in order.
fn append_pairs(dst: &mut Vec<(String, String)>, src: Vec<(String, String)>)
    ensures
        final(dst)@ == old(dst)@ + src@,
{
    let ghost srcs = src@;
    let mut extra = src;
    while extra.len() > 0
        invariant
            dst@ + extra@ == old(dst)@ + srcs,
        decreases extra@.len(),
    {
        let ghost before = extra@;
        let ghost dst_before = dst@;
        let pair = extra.remove(0);
        proof {
            assert(before =~= seq![pair] + extra@);
        }
        dst.push(pair);
        proof {
            assert(dst@ + extra@ =~= (dst_before + before));
        }
    }
    proof {
        assert(dst@ + extra@ =~= dst@);
    }
}

impl ToolproofParams {
    /// Apply command line values over the loaded configuration: each supplied
    /// value replaces the configured one, each supplied placeholder pair is
    /// appended, each set flag switches the option on, and nothing else
    /// changes.
    #[verifier::loop_isolation(false)]
    pub fn override_from_cli(&mut self, cli: CliOverrides)
        ensures
            final(self).root == (if cli.root is Some {
                cli.root
            } else {
                old(self).root
            }),
            final(self).concurrency == (match cli.concurrency {
                Option::Some(c) => c,
                Option::None => old(self).concurrency,
            }),
            final(self).timeout == (match cli.timeout {
                Option::Some(t) => t,
                Option::None => old(self).timeout,
            }),
            final(self).placeholder_delimiter@ == (match cli.placeholder_delimiter {
                Option::Some(d) => d@,
                Option::None => old(self).placeholder_delimiter@,
            }),
            final(self).run_name == (if cli.run_name is Some {
                cli.run_name
            } else {
                old(self).run_name
            }),
            final(self).browser == (match cli.browser {
                Option::Some(b) => b,
                Option::None => old(self).browser,
            }),
            final(self).verbose == (old(self).verbose || cli.verbose),
            final(self).porcelain == (old(self).porcelain || cli.porcelain),
            final(self).interactive == (old(self).interactive || cli.interactive),
            final(self).all == (old(self).all || cli.all),
            final(self).skip_hooks == (old(self).skip_hooks || cli.skip_hooks),
            final(self).placeholders@ == old(self).placeholders@ + cli.placeholders@,
            final(self).run_path == old(self).run_path,
            final(self).before_all@ == old(self).before_all@,
            final(self).retry_count == old(self).retry_count,
            final(self).failure_screenshot_location == old(self).failure_screenshot_location,
            final(self).supported_versions == old(self).supported_versions,
            final(self).debugger == old(self).debugger,
    {
        if cli.verbose {
            self.verbose = true;
        }
        if cli.porcelain {
            self.porcelain = true;
        }
        if cli.interactive {
            self.interactive = true;
        }
        if cli.all {
            self.all = true;
        }
        if cli.skip_hooks {
            self.skip_hooks = true;
        }
        match cli.run_name {
            Option::Some(name) => {
                self.run_name = Option::Some(name);
            },
            Option::None => {},
        }
        match cli.root {
            Option::Some(root) => {
                self.root = Option::Some(root);
            },
            Option::None => {},
        }
        match cli.concurrency {
            Option::Some(c) => {
                self.concurrency = c;
            },
            Option::None => {},
        }
        match cli.timeout {
            Option::Some(t) => {
                self.timeout = t;
            },
            Option::None => {},
        }
        match cli.placeholder_delimiter {
            Option::Some(d) => {
                self.placeholder_delimiter = d;
            },
            Option::None => {},
        }
        match cli.browser {
            Option::Some(b) => {
                self.browser = b;
            },
            Option::None => {},
        }
        append_pairs(&mut self.placeholders, cli.placeholders);
    }
}

/// The configuration as the runner uses it: the recognized options plus what
/// the program learned of itself at startup.
#[derive(Debug)]
pub struct ToolproofContext {
    /// The version of the running binary; `0.0.0` marks a local build.
    pub version: String,
    /// The directory the program was started in, as a slash path.
    pub working_directory: String,
    pub params: ToolproofParams,
}

impl ToolproofContext {
    /// Resolve the configuration against the working directory: a relative
    /// root is joined under the working directory, an absolute one stands.
    pub fn load(params: ToolproofParams, working_directory: String, version: String) -> (r:
        ToolproofContext)
        ensures
            r.version@ == version@,
            r.working_directory@ == working_directory@,
            match params.root {
                Option::None => r.params.root is None,
                Option::Some(root) => r.params.root matches Option::Some(joined)
                    && joined@ == spec_joined_root(working_directory@, root@),
            },
            r.params.verbose == params.verbose,
            r.params.porcelain == params.porcelain,
            r.params.interactive == params.interactive,
            r.params.all == params.all,
            r.params.run_name == params.run_name,
            r.params.run_path == params.run_path,
            r.params.browser == params.browser,
            r.params.concurrency == params.concurrency,
            r.params.timeout == params.timeout,
            r.params.placeholder_delimiter@ == params.placeholder_delimiter@,
            r.params.placeholders@ == params.placeholders@,
            r.params.before_all@ == params.before_all@,
            r.params.skip_hooks == params.skip_hooks,
            r.params.retry_count == params.retry_count,
            r.params.failure_screenshot_location == params.failure_screenshot_location,
            r.params.supported_versions == params.supported_versions,
            r.params.debugger == params.debugger,
    {
        let mut params = params;
        let root = match params.root {
            Option::Some(root) => Option::Some(join_under(working_directory.as_str(), root)),
            Option::None => Option::None,
        };
        params.root = root;
        ToolproofContext { version, working_directory, params }
    }
}

/// A path joined under a base directory: an absolute path stands on its own,
/// a relative one goes after the base and a slash.
pub open spec fn spec_joined_root(base: Seq<char>, p: Seq<char>) -> Seq<char> {
    if p.len() > 0 && p[0] == '/' {
        p
    } else {
        base + seq!['/'] + p
    }
}

/// Join a path under a base directory.
pub fn join_under(base: &str, p: String) -> (r: String)
    ensures
        r@ == spec_joined_root(base@, p@),
{
    let cs = chars_of(p.as_str());
    if cs.len() > 0 {
        if cs[0] == '/' {
            return p;
        }
    }
    let mut out = chars_of(base);
    out.push('/');
    crate::text::extend_chars(&mut out, &cs);
    proof {
        assert(out@ =~= base@ + seq!['/'] + p@);
    }
    crate::text::string_from_chars(&out)
}

} // verus!
