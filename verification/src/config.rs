//! Where the program keeps its files, and the bearer token it works with.

use vstd::prelude::*;

verus! {

/// The paths of the program's files and the token in use.
#[derive(Debug)]
pub struct Config<'a> {
    /// The file that keeps the bearer token between runs.
    pub token_path: &'a str,
    /// The file that keeps the list of marked senders.
    pub mark_list_path: &'a str,
    /// The file that keeps the activity log.
    pub log_path: &'a str,
    /// The token to present to the mail service, once there is one.
    pub valid_token: Option<String>,
}

/// What remains to be done before the mail service can be called.
#[derive(Clone, Copy, Debug, PartialEq, Eq, Structural)]
pub enum TokenStep {
    /// The stored token is in use.
    Ready,
    /// No token is stored: one has to be acquired and handed to `set_token`.
    Acquire,
}

impl Default for Config<'_> {
    fn default() -> (c: Self)
        ensures
            c.token_path@ == "./data/token"@,
            c.mark_list_path@ == "./data/mark_list.json"@,
            c.log_path@ == "./data/log.json"@,
            c.valid_token is None,
    {
        Self {
            token_path: "./data/token",
            mark_list_path: "./data/mark_list.json",
            log_path: "./data/log.json",
            valid_token: None,
        }
    }
}

impl<'a> Config<'a> {
    /// The configuration with the usual paths and no token yet.
    pub fn new() -> (c: Self)
        ensures
            c.token_path@ == "./data/token"@,
            c.mark_list_path@ == "./data/mark_list.json"@,
            c.log_path@ == "./data/log.json"@,
            c.valid_token is None,
    {
        Self {
            token_path: "./data/token",
            mark_list_path: "./data/mark_list.json",
            log_path: "./data/log.json",
            valid_token: None,
        }
    }

    /// The files that have to exist before the program works on them: the
    /// token file, the list of marked senders and the activity log.
    pub fn essential_files(&self) -> (paths: Vec<&'a str>)
        ensures
            paths@.len() == 3,
            paths@[0]@ == self.token_path@,
            paths@[1]@ == self.mark_list_path@,
            paths@[2]@ == self.log_path@,
    {
        let mut paths: Vec<&'a str> = Vec::new();
        paths.push(self.token_path);
        paths.push(self.mark_list_path);
        paths.push(self.log_path);
        paths
    }

    /// Takes up the token that the token file holds. `stored` is the content
    /// of that file, empty where there is none. A stored token is put to use
    /// as it is; without one the token stays unset and has to be acquired.
    pub fn init(&mut self, stored: String) -> (step: TokenStep)
        ensures
            final(self).token_path == old(self).token_path,
            final(self).mark_list_path == old(self).mark_list_path,
            final(self).log_path == old(self).log_path,
            stored@.len() > 0 ==> step == TokenStep::Ready && final(self).valid_token == Some(stored),
            stored@.len() == 0 ==> step == TokenStep::Acquire && final(self).valid_token == old(self).valid_token,
    {
        if !stored.as_str().is_empty() {
            self.valid_token = Some(stored);
            TokenStep::Ready
        } else {
            TokenStep::Acquire
        }
    }

    /// Puts a freshly acquired token to use. The caller stores it in the
    /// token file.
    pub fn set_token(&mut self, token: String)
        ensures
            final(self).token_path == old(self).token_path,
            final(self).mark_list_path == old(self).mark_list_path,
            final(self).log_path == old(self).log_path,
            final(self).valid_token == Some(token),
    {
        self.valid_token = Some(token);
    }
}

} // verus!
