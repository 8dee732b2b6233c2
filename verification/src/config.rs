use vstd::prelude::*;

verus! {

/// The server's and the command-line client's settings.  Loading them from
/// configuration files is the caller's business; merging the command-line
/// arguments over them happens here, under contract.
pub struct Config {
    pub server: Server,
    pub client: Client,
}

/// The server's settings.
pub struct Server {
    /// The port to bind to.
    pub port: Option<String>,
    /// The addresses to bind to.
    pub bind: Option<Vec<String>>,
    /// The key a writer must present to the mutation endpoints.
    pub api_key: Option<String>,
}

/// The command-line client's settings.
pub struct Client {
    /// The server to post tasks and the topic to.
    pub server: Option<String>,
    /// The filter used for listing tasks.
    pub filter: Option<String>,
    /// The key presented to the server.
    pub api_key: Option<String>,
}

/// The argument values the option merging reads, as plain data: an argument
/// parser in front of the library fills one of these from the command line.
pub struct CliMatches {
    /// The port argument, if the invoked subcommand defines it.
    pub port: Option<String>,
    /// How often the port argument was given explicitly.
    pub port_occurrences: u64,
    /// The bind addresses, if given.
    pub bind: Option<Vec<String>>,
    /// The filter argument, if the invoked subcommand defines it.
    pub filter: Option<String>,
    /// How often the filter argument was given explicitly.
    pub filter_occurrences: u64,
    /// The server argument, if given.
    pub server: Option<String>,
    /// The api-key argument, if given.
    pub api_key: Option<String>,
}

/// Whether one of these texts reads `x`.
pub open spec fn has_text(s: Seq<Seq<char>>, x: Seq<char>) -> bool {
    exists|i: int| 0 <= i < s.len() && s[i] == x
}

/// No two of these texts read the same.
pub open spec fn distinct_texts(s: Seq<Seq<char>>) -> bool {
    forall|i: int, j: int| 0 <= i < j < s.len() ==> s[i] != s[j]
}

/// The texts of a list of strings.
pub open spec fn texts_of(v: Seq<String>) -> Seq<Seq<char>> {
    v.map_values(|s: String| s@)
}

impl Default for Config {
    /// A configuration with nothing set.
    fn default() -> (c: Config)
        ensures
            c.server.port is None,
            c.server.bind is None,
            c.server.api_key is None,
            c.client.server is None,
            c.client.filter is None,
            c.client.api_key is None,
    {
        Config {
            server: Server { port: None, bind: None, api_key: None },
            client: Client { server: None, filter: None, api_key: None },
        }
    }
}

impl Config {
    /// Merge the server-side command-line options over the loaded settings.
    /// The port argument wins whenever it was given explicitly, and fills a
    /// hole otherwise, falling back to "8128".  The bind addresses, when
    /// given, replace the loaded ones with their distinct values; when
    /// neither the command line nor the files name any, the loopback address
    /// stands in.  Nothing else is touched.
    pub fn process_server_options(config: &mut Config, matches: &CliMatches)
        ensures
            final(config).client == old(config).client,
            final(config).server.api_key == old(config).server.api_key,
            matches.port_occurrences > 0 || old(config).server.port is None ==> {
                &&& final(config).server.port is Some
                &&& final(config).server.port->0@ == (match matches.port {
                    Some(p) => p@,
                    None => "8128"@,
                })
            },
            !(matches.port_occurrences > 0 || old(config).server.port is None)
                ==> final(config).server.port == old(config).server.port,
            matches.bind is Some ==> {
                &&& final(config).server.bind is Some
                &&& distinct_texts(texts_of(final(config).server.bind->0@))
                &&& forall|x: Seq<char>|
                    has_text(texts_of(final(config).server.bind->0@), x) <==> has_text(
                        texts_of(matches.bind->0@),
                        x,
                    )
            },
            matches.bind is None && old(config).server.bind is None ==> {
                &&& final(config).server.bind is Some
                &&& texts_of(final(config).server.bind->0@).len() == 1
                &&& texts_of(final(config).server.bind->0@)[0] == "127.0.0.1"@
            },
            matches.bind is None && old(config).server.bind is Some ==> final(config).server.bind
                == old(config).server.bind,
    {
        let port_given = matches.port_occurrences > 0;
        if port_given || config.server.port.is_none() {
            let p = match &matches.port {
                Some(p) => p.clone(),
                None => "8128".to_owned(),
            };
            config.server.port = Some(p);
        }
        match &matches.bind {
            Some(values) => {
                let interfaces = first_occurrences(values);
                config.server.bind = Some(interfaces);
            },
            None => {
                if config.server.bind.is_none() {
                    let mut loopback: Vec<String> = Vec::new();
                    loopback.push("127.0.0.1".to_owned());
                    proof {
                        assert(texts_of(loopback@)[0] == "127.0.0.1"@);
                    }
                    config.server.bind = Some(loopback);
                }
            },
        }
    }

    /// Merge the client-side command-line options over the loaded settings.
    /// The filter argument wins whenever it was given explicitly, and fills a
    /// hole otherwise, falling back to "status:pending"; the server and the
    /// api key are taken only when given.  Nothing else is touched.
    pub fn process_client_options(config: &mut Config, matches: &CliMatches)
        ensures
            final(config).server == old(config).server,
            matches.filter_occurrences > 0 || old(config).client.filter is None ==> {
                &&& final(config).client.filter is Some
                &&& final(config).client.filter->0@ == (match matches.filter {
                    Some(f) => f@,
                    None => "status:pending"@,
                })
            },
            !(matches.filter_occurrences > 0 || old(config).client.filter is None)
                ==> final(config).client.filter == old(config).client.filter,
            matches.server is Some ==> final(config).client.server is Some
                && final(config).client.server->0@ == matches.server->0@,
            matches.server is None ==> final(config).client.server == old(config).client.server,
            matches.api_key is Some ==> final(config).client.api_key is Some
                && final(config).client.api_key->0@ == matches.api_key->0@,
            matches.api_key is None ==> final(config).client.api_key == old(config).client.api_key,
    {
        let filter_given = matches.filter_occurrences > 0;
        if filter_given || config.client.filter.is_none() {
            let f = match &matches.filter {
                Some(f) => f.clone(),
                None => "status:pending".to_owned(),
            };
            config.client.filter = Some(f);
        }
        match &matches.server {
            Some(s) => {
                config.client.server = Some(s.clone());
            },
            None => {},
        }
        match &matches.api_key {
            Some(k) => {
                config.client.api_key = Some(k.clone());
            },
            None => {},
        }
    }
}

/// Whether one of these strings reads like `s`.
fn contains_string(v: &Vec<String>, s: &String) -> (b: bool)
    ensures
        b == has_text(texts_of(v@), s@),
{
    let n = v.len();
    let mut i: usize = 0;
    while i < n
        invariant
            i <= n,
            n == v@.len(),
            forall|k: int| 0 <= k < i ==> texts_of(v@)[k] != s@,
        decreases n - i,
    {
        if v[i] == *s {
            proof {
                assert(texts_of(v@)[i as int] == s@);
            }
            return true;
        }
        proof {
            assert(texts_of(v@)[i as int] == v@[i as int]@);
        }
        i = i + 1;
    }
    false
}

/// Appending one text to a list makes it readable there, and nothing else.
proof fn lemma_has_text_push(s: Seq<Seq<char>>, x: Seq<char>, y: Seq<char>)
    ensures
        has_text(s.push(y), x) <==> (has_text(s, x) || x == y),
{
    if has_text(s.push(y), x) {
        let w = choose|w: int| 0 <= w < s.push(y).len() && s.push(y)[w] == x;
        if w < s.len() {
            assert(s[w] == x);
        }
    }
    if has_text(s, x) {
        let w = choose|w: int| 0 <= w < s.len() && s[w] == x;
        assert(s.push(y)[w] == x);
    }
    if x == y {
        assert(s.push(y)[s.len() as int] == x);
    }
}

/// Appending a text that is not yet readable keeps the texts distinct.
proof fn lemma_distinct_push(s: Seq<Seq<char>>, y: Seq<char>)
    requires
        distinct_texts(s),
        !has_text(s, y),
    ensures
        distinct_texts(s.push(y)),
{
    let s2 = s.push(y);
    assert forall|i: int, j: int| 0 <= i < j < s2.len() implies s2[i] != s2[j] by {
        if j == s.len() {
            assert(s2[i] == s[i]);
            if s[i] == y {
                assert(has_text(s, y));
            }
        }
    }
}

/// Keep the first occurrence of each text, in order: the distinct bind
/// addresses, whichever order and multiplicity the command line gave them
/// in.
fn first_occurrences(values: &Vec<String>) -> (r: Vec<String>)
    ensures
        distinct_texts(texts_of(r@)),
        forall|x: Seq<char>| has_text(texts_of(r@), x) <==> has_text(texts_of(values@), x),
{
    let n = values.len();
    let mut out: Vec<String> = Vec::new();
    let mut i: usize = 0;
    while i < n
        invariant
            i <= n,
            n == values@.len(),
            distinct_texts(texts_of(out@)),
            forall|x: Seq<char>|
                has_text(texts_of(out@), x) <==> has_text(texts_of(values@.take(i as int)), x),
        decreases n - i,
    {
        let ghost out0 = out@;
        proof {
            assert(texts_of(values@)[i as int] == values@[i as int]@);
        }
        let hit = contains_string(&out, &values[i]);
        if !hit {
            out.push(values[i].clone());
        }
        proof {
            let tv = texts_of(values@);
            let prefix = texts_of(values@.take(i as int));
            let prefix2 = texts_of(values@.take(i + 1));
            assert(prefix2 =~= prefix.push(tv[i as int]));
            if !hit {
                assert(texts_of(out@) =~= texts_of(out0).push(tv[i as int]));
                lemma_distinct_push(texts_of(out0), tv[i as int]);
            }
            assert forall|x: Seq<char>|
                has_text(texts_of(out@), x) <==> has_text(prefix2, x) by {
                lemma_has_text_push(prefix, x, tv[i as int]);
                if !hit {
                    lemma_has_text_push(texts_of(out0), x, tv[i as int]);
                }
            }
        }
        i = i + 1;
    }
    proof {
        assert(values@.take(n as int) =~= values@);
    }
    out
}

} // verus!
