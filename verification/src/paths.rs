use vstd::prelude::*;

use crate::clock::unix_timestamp;
use crate::error::TokensmithError;
use crate::text::{chars_of, decimal, push_decimal};

verus! {

/// `PathBuf::join` on Unix: an absolute segment replaces the base; otherwise a `/` is put
/// between them unless the base is empty or already ends with one.
pub open spec fn join(base: Seq<char>, seg: Seq<char>) -> Seq<char> {
    if seg.len() > 0 && seg[0] == '/' {
        seg
    } else if base.len() == 0 {
        seg
    } else if base.last() == '/' {
        base + seg
    } else {
        base + "/"@ + seg
    }
}

pub fn join_path(base: &str, seg: &str) -> (r: String)
    ensures
        r@ == join(base@, seg@),
{
    let b = chars_of(base);
    let s = chars_of(seg);
    if s.len() > 0 && s[0] == '/' {
        return String::from_str(seg);
    }
    if b.len() == 0 {
        return String::from_str(seg);
    }
    let mut r = String::from_str(base);
    if b[b.len() - 1] != '/' {
        r.append("/");
    }
    r.append(seg);
    r
}

/// Where tokensmith keeps its files, all under one root directory.
pub struct TokensmithPaths {
    root: String,
}

impl Clone for TokensmithPaths {
    fn clone(&self) -> (r: Self)
        ensures
            r == *self,
    {
        TokensmithPaths { root: self.root.clone() }
    }
}

/// The file a model's weights are kept in: `<models>/<id>/<id>.gguf`.
pub open spec fn model_file(root: Seq<char>, id: Seq<char>) -> Seq<char> {
    join(join(join(root, "models"@), id), id + ".gguf"@)
}

impl TokensmithPaths {
    pub closed spec fn root_view(&self) -> Seq<char> {
        self.root@
    }

    /// The root is `home_override` when it is set (the `TOKENSMITH_HOME` variable), else
    /// `.tokensmith` in the home directory; without either the home cannot be resolved.
    pub fn new(home_override: Option<String>, home: Option<String>) -> (r: Result<Self, TokensmithError>)
        ensures
            match (home_override, home) {
                (Some(o), _) => r matches Ok(p) && p.root_view() == o@,
                (None, Some(h)) => r matches Ok(p) && p.root_view() == join(h@, ".tokensmith"@),
                (None, None) => r matches Err(TokensmithError::Runtime(m)) && m@ == "could not resolve home directory"@,
            },
    {
        match home_override {
            Some(o) => Ok(TokensmithPaths { root: o }),
            None => match home {
                Some(h) => Ok(TokensmithPaths { root: join_path(h.as_str(), ".tokensmith") }),
                None => Err(TokensmithError::Runtime(String::from_str("could not resolve home directory"))),
            },
        }
    }

    pub fn root(&self) -> (r: &str)
        ensures
            r@ == self.root_view(),
    {
        self.root.as_str()
    }

    pub fn models_dir(&self) -> (r: String)
        ensures
            r@ == join(self.root_view(), "models"@),
    {
        join_path(self.root.as_str(), "models")
    }

    pub fn model_dir(&self, id: &str) -> (r: String)
        ensures
            r@ == join(join(self.root_view(), "models"@), id@),
    {
        join_path(self.models_dir().as_str(), id)
    }

    /// The weights file of model `id`.
    pub fn model_file(&self, id: &str) -> (r: String)
        ensures
            r@ == model_file(self.root_view(), id@),
    {
        let mut name = String::from_str(id);
        name.append(".gguf");
        join_path(self.model_dir(id).as_str(), name.as_str())
    }

    pub fn logs_dir(&self) -> (r: String)
        ensures
            r@ == join(self.root_view(), "logs"@),
    {
        join_path(self.root.as_str(), "logs")
    }

    pub fn bin_dir(&self) -> (r: String)
        ensures
            r@ == join(self.root_view(), "bin"@),
    {
        join_path(self.root.as_str(), "bin")
    }

    pub fn state_path(&self) -> (r: String)
        ensures
            r@ == join(self.root_view(), "state.json"@),
    {
        join_path(self.root.as_str(), "state.json")
    }

    pub fn config_path(&self) -> (r: String)
        ensures
            r@ == join(self.root_view(), "config.toml"@),
    {
        join_path(self.root.as_str(), "config.toml")
    }

    /// The server log file for a start at Unix time `ts`.
    pub open spec fn server_log_file(&self, ts: u64) -> Seq<char> {
        join(join(self.root_view(), "logs"@), "server-"@ + decimal(ts as nat) + ".log"@)
    }

    pub fn server_log_path_at(&self, ts: u64) -> (r: String)
        ensures
            r@ == self.server_log_file(ts),
    {
        let mut name = String::from_str("server-");
        push_decimal(&mut name, ts);
        name.append(".log");
        join_path(self.logs_dir().as_str(), name.as_str())
    }

    /// A fresh server log file, named by the current Unix time.
    pub fn new_server_log_path(&self) -> (r: String)
        ensures
            exists|ts: u64| r@ == self.server_log_file(ts),
    {
        let ts = unix_timestamp();
        self.server_log_path_at(ts)
    }

    /// The log file of a `llama-server` started at Unix time `ts`.
    pub open spec fn runtime_log_file(&self, ts: u64) -> Seq<char> {
        join(join(self.root_view(), "logs"@), "llama-server-"@ + decimal(ts as nat) + ".log"@)
    }

    pub fn runtime_log_path_at(&self, ts: u64) -> (r: String)
        ensures
            r@ == self.runtime_log_file(ts),
    {
        let mut name = String::from_str("llama-server-");
        push_decimal(&mut name, ts);
        name.append(".log");
        join_path(self.logs_dir().as_str(), name.as_str())
    }

    /// A fresh log file for `llama-server`, named by the current Unix time.
    pub fn new_runtime_log_path(&self) -> (r: String)
        ensures
            exists|ts: u64| r@ == self.runtime_log_file(ts),
    {
        let ts = unix_timestamp();
        self.runtime_log_path_at(ts)
    }
}

} // verus!
