//! The slice of the tool configuration that the execution core reads.
use vstd::prelude::*;
use vstd::string::*;

verus! {

/// Local settings: where the server binds and where run logs are kept.
#[derive(Debug, Clone)]
pub struct BldLocalConfig {
    pub host: String,
    pub port: i64,
    pub logs: String,
}

/// One remote server entry: its name, address, and authentication, which
/// may be borrowed from another entry by name.
#[derive(Debug, Clone)]
pub struct BldServerConfig {
    pub name: String,
    pub host: String,
    pub port: i64,
    pub auth: Option<String>,
    pub same_auth_as: Option<String>,
}

/// The remote side of the configuration: the known servers, in file order.
#[derive(Debug, Clone)]
pub struct BldRemoteConfig {
    pub servers: Vec<BldServerConfig>,
}

/// The tool configuration as the core consumes it.
#[derive(Debug, Clone)]
pub struct BldConfig {
    pub local: BldLocalConfig,
    pub remote: BldRemoteConfig,
}

/// The index of the first server with the given name, if any.
pub open spec fn spec_find_server(servers: Seq<BldServerConfig>, name: Seq<char>) -> Option<int>
    decreases servers.len(),
{
    if servers.len() == 0 {
        Option::None
    } else if servers[0].name@ == name {
        Option::Some(0)
    } else {
        match spec_find_server(servers.skip(1), name) {
            Option::Some(i) => Option::Some(i + 1),
            Option::None => Option::None,
        }
    }
}

impl BldRemoteConfig {
    /// An empty remote configuration.
    pub fn default() -> (r: Self)
        ensures
            r.servers@.len() == 0,
    {
        BldRemoteConfig { servers: Vec::<BldServerConfig>::new() }
    }

    /// The first server with the given name.
    pub fn find_server(&self, name: &str) -> (r: Option<&BldServerConfig>)
        ensures
            match spec_find_server(self.servers@, name@) {
                Option::Some(i) => r matches Option::Some(s) && s == &self.servers@[i]
                    && s.name@ == name@,
                Option::None => r is None,
            },
    {
        let n = self.servers.len();
        let mut i: usize = 0;
        proof {
            assert(self.servers@.skip(0) =~= self.servers@);
        }
        while i < n
            invariant
                n == self.servers@.len(),
                i <= n,
                spec_find_server(self.servers@, name@) == (match spec_find_server(
                    self.servers@.skip(i as int),
                    name@,
                ) {
                    Option::Some(k) => Option::Some(k + i),
                    Option::None => Option::<int>::None,
                }),
            decreases n - i,
        {
            if crate::pipeline::str_eq(self.servers[i].name.as_str(), name) {
                proof {
                    assert(self.servers@.skip(i as int)[0] == self.servers@[i as int]);
                }
                return Option::Some(&self.servers[i]);
            }
            proof {
                assert(self.servers@.skip(i as int)[0] == self.servers@[i as int]);
                assert(self.servers@.skip(i as int).skip(1) =~= self.servers@.skip(i + 1));
            }
            i += 1;
        }
        proof {
            assert(self.servers@.skip(n as int) =~= Seq::<BldServerConfig>::empty());
        }
        Option::None
    }

    /// The server with the given name, or the first configured server when
    /// no name is asked for; an error when there is no such server.
    pub fn server_or_first(&self, name: &Option<String>) -> (r: Result<
        &BldServerConfig,
        crate::errors::RunError,
    >)
        ensures
            match name {
                Option::Some(n) => match spec_find_server(self.servers@, n@) {
                    Option::Some(i) => r matches Result::Ok(s) && s == &self.servers@[i],
                    Option::None => r matches Result::Err(e) && e is PipelineNotFound,
                },
                Option::None => if self.servers@.len() > 0 {
                    r matches Result::Ok(s) && s == &self.servers@[0]
                } else {
                    r matches Result::Err(e) && e is PipelineNotFound
                },
            },
    {
        match name {
            Option::Some(n) => match self.find_server(n.as_str()) {
                Option::Some(s) => Result::Ok(s),
                Option::None => Result::Err(crate::errors::RunError::PipelineNotFound),
            },
            Option::None => {
                if self.servers.len() > 0 {
                    Result::Ok(&self.servers[0])
                } else {
                    Result::Err(crate::errors::RunError::PipelineNotFound)
                }
            },
        }
    }
}

} // verus!
