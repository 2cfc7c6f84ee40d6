//! The configuration model: subprocess server entries and tagged backend
//! configurations, with the built-in defaults. Loading and persisting the
//! file itself is an outside concern.

use vstd::prelude::*;
use vstd::string::StringExecFns;
use crate::text::str_eq;

verus! {

/// One subprocess log-query server: its command line and environment.
#[derive(Clone, Debug)]
pub struct McpServer {
    pub command: String,
    pub args: Vec<String>,
    pub env: Vec<(String, String)>,
}

/// One backend's connection configuration, a tagged variant per kind;
/// created at startup or by an explicit switch, never mutated in place.
#[derive(Clone, Debug)]
pub enum LogBackend {
    Elasticsearch {
        url: String,
        username: Option<String>,
        password: Option<String>,
        index_pattern: String,
        verify_ssl: bool,
    },
    OpenObserve {
        url: String,
        username: String,
        password: String,
        organization: String,
        stream: String,
        verify_ssl: bool,
    },
    Kibana {
        url: String,
        auth_token: Option<String>,
        index_pattern: String,
        verify_ssl: bool,
        version: String,
    },
}

/// The whole configuration: named servers and named backends, keys unique.
#[derive(Clone, Debug)]
pub struct Config {
    pub servers: Vec<(String, McpServer)>,
    pub backends: Vec<(String, LogBackend)>,
}

/// The index pattern a backend defaults to.
pub fn default_index_pattern() -> (r: String)
    ensures
        r@ == "logs-*"@,
{
    "logs-*".to_owned()
}

/// The organization an OpenObserve-style backend defaults to.
pub fn default_organization() -> (r: String)
    ensures
        r@ == "default"@,
{
    "default".to_owned()
}

/// The stream an OpenObserve-style backend defaults to.
pub fn default_stream() -> (r: String)
    ensures
        r@ == "default"@,
{
    "default".to_owned()
}

/// The version a Kibana-style backend defaults to.
pub fn default_kibana_version() -> (r: String)
    ensures
        r@ == "7.10.2"@,
{
    "7.10.2".to_owned()
}

/// True when some entry of `s` carries the key.
pub open spec fn spec_has_entry<T>(s: Seq<(String, T)>, key: Seq<char>) -> bool {
    exists|i: int| 0 <= i < s.len() && (#[trigger] s[i]).0@ == key
}

impl Config {
    /// Looks a server up by name; the returned server is the one configured
    /// under that name.
    pub fn get_server(&self, name: &str) -> (r: Option<&McpServer>)
        ensures
            r is Some <==> spec_has_entry(self.servers@, name@),
            r matches Some(v) ==> exists|i: int|
                0 <= i < self.servers@.len() && (#[trigger] self.servers@[i]).0@ == name@
                    && self.servers@[i].1 == *v,
    {
        let mut i: usize = 0;
        while i < self.servers.len()
            invariant
                0 <= i <= self.servers@.len(),
                forall|j: int| 0 <= j < i ==> (#[trigger] self.servers@[j]).0@ != name@,
            decreases self.servers@.len() - i,
        {
            if str_eq(self.servers[i].0.as_str(), name) {
                return Some(&self.servers[i].1);
            }
            i = i + 1;
        }
        None
    }

    /// True when a server of that name is configured.
    pub fn contains_server(&self, name: &str) -> (r: bool)
        ensures
            r == spec_has_entry(self.servers@, name@),
    {
        self.get_server(name).is_some()
    }

    /// Looks a backend up by name; the returned backend is the one
    /// configured under that name.
    pub fn get_backend(&self, name: &str) -> (r: Option<&LogBackend>)
        ensures
            r is Some <==> spec_has_entry(self.backends@, name@),
            r matches Some(v) ==> exists|i: int|
                0 <= i < self.backends@.len() && (#[trigger] self.backends@[i]).0@ == name@
                    && self.backends@[i].1 == *v,
    {
        let mut i: usize = 0;
        while i < self.backends.len()
            invariant
                0 <= i <= self.backends@.len(),
                forall|j: int| 0 <= j < i ==> (#[trigger] self.backends@[j]).0@ != name@,
            decreases self.backends@.len() - i,
        {
            if str_eq(self.backends[i].0.as_str(), name) {
                return Some(&self.backends[i].1);
            }
            i = i + 1;
        }
        None
    }

    /// The names of the configured backends, in configuration order.
    pub fn backend_names(&self) -> (r: Vec<String>)
        ensures
            r@.len() == self.backends@.len(),
            forall|i: int|
                0 <= i < r@.len() ==> (#[trigger] r@[i])@ == self.backends@[i].0@,
    {
        let mut out: Vec<String> = Vec::new();
        let mut i: usize = 0;
        while i < self.backends.len()
            invariant
                0 <= i <= self.backends@.len(),
                out@.len() == i,
                forall|j: int| 0 <= j < i ==> (#[trigger] out@[j])@ == self.backends@[j].0@,
            decreases self.backends@.len() - i,
        {
            out.push(self.backends[i].0.clone());
            i = i + 1;
        }
        out
    }

    /// The built-in defaults: one subprocess server entry and the three
    /// backend kinds against local default endpoints.
    pub fn default_config() -> (r: Config)
        ensures
            r.servers@.len() == 1,
            r.servers@[0].0@ == "otel-mcp-server"@,
            r.servers@[0].1.command@ == "npx"@,
            r.servers@[0].1.args@.len() == 2,
            r.servers@[0].1.args@[0]@ == "-y"@,
            r.servers@[0].1.args@[1]@ == "otel-mcp-server"@,
            spec_has_entry(r.servers@[0].1.env@, "ELASTICSEARCH_URL"@),
            r.backends@.len() == 3,
            r.backends@[0].0@ == "elasticsearch"@,
            r.backends@[0].1 matches LogBackend::Elasticsearch { url, index_pattern, .. }
                && url@ == "http://localhost:9200"@ && index_pattern@ == "logs-*"@,
            r.backends@[1].0@ == "openobserve"@,
            r.backends@[1].1 matches LogBackend::OpenObserve { url, organization, stream, .. }
                && url@ == "http://localhost:5080"@ && organization@ == "default"@ && stream@
                == "default"@,
            r.backends@[2].0@ == "kibana"@,
            r.backends@[2].1 matches LogBackend::Kibana { url, version, .. } && url@
                == "http://localhost:5601"@ && version@ == "7.10.2"@,
    {
        let mut env: Vec<(String, String)> = Vec::new();
        env.push(("ELASTICSEARCH_URL".to_owned(), "http://localhost:9200".to_owned()));
        env.push(("ELASTICSEARCH_USERNAME".to_owned(), "elastic".to_owned()));
        env.push(("ELASTICSEARCH_PASSWORD".to_owned(), "changeme".to_owned()));
        env.push(("SERVER_NAME".to_owned(), "otel-mcp-server".to_owned()));
        env.push(("LOGLEVEL".to_owned(), "OFF".to_owned()));
        assert(env@[0].0@ == "ELASTICSEARCH_URL"@);

        let mut args: Vec<String> = Vec::new();
        args.push("-y".to_owned());
        args.push("otel-mcp-server".to_owned());

        let mut servers: Vec<(String, McpServer)> = Vec::new();
        servers.push(
            ("otel-mcp-server".to_owned(), McpServer { command: "npx".to_owned(), args, env }),
        );

        let mut backends: Vec<(String, LogBackend)> = Vec::new();
        backends.push(
            (
                "elasticsearch".to_owned(),
                LogBackend::Elasticsearch {
                    url: "http://localhost:9200".to_owned(),
                    username: Some("elastic".to_owned()),
                    password: Some("changeme".to_owned()),
                    index_pattern: default_index_pattern(),
                    verify_ssl: false,
                },
            ),
        );
        backends.push(
            (
                "openobserve".to_owned(),
                LogBackend::OpenObserve {
                    url: "http://localhost:5080".to_owned(),
                    username: "admin@example.com".to_owned(),
                    password: "changeme".to_owned(),
                    organization: default_organization(),
                    stream: default_stream(),
                    verify_ssl: false,
                },
            ),
        );
        backends.push(
            (
                "kibana".to_owned(),
                LogBackend::Kibana {
                    url: "http://localhost:5601".to_owned(),
                    auth_token: None,
                    index_pattern: default_index_pattern(),
                    verify_ssl: false,
                    version: default_kibana_version(),
                },
            ),
        );
        Config { servers, backends }
    }
}

impl McpServer {
    /// Looks an environment entry up by key; the returned value is the one
    /// configured under that key.
    pub fn env_get(&self, key: &str) -> (r: Option<&String>)
        ensures
            r is Some <==> spec_has_entry(self.env@, key@),
            r matches Some(v) ==> exists|i: int|
                0 <= i < self.env@.len() && (#[trigger] self.env@[i]).0@ == key@ && self.env@[i].1
                    == *v,
    {
        let mut i: usize = 0;
        while i < self.env.len()
            invariant
                0 <= i <= self.env@.len(),
                forall|j: int| 0 <= j < i ==> (#[trigger] self.env@[j]).0@ != key@,
            decreases self.env@.len() - i,
        {
            if str_eq(self.env[i].0.as_str(), key) {
                return Some(&self.env[i].1);
            }
            i = i + 1;
        }
        None
    }

    /// True when an environment entry of that key is configured.
    pub fn env_contains(&self, key: &str) -> (r: bool)
        ensures
            r == spec_has_entry(self.env@, key@),
    {
        self.env_get(key).is_some()
    }
}

} // verus!
