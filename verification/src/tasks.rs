use vstd::prelude::*;
use vstd::string::StringExecFns;

verus! {

/// What `shlex::split` returns: the POSIX-shell word split of the text, or
/// nothing when the text is erroneous (an unclosed quote, or a trailing
/// backslash).
pub uninterp spec fn shell_split(s: Seq<char>) -> Option<Seq<Seq<char>>>;

/// Relies on `shlex::split`: the POSIX-shell word split of the text, a
/// function of the text alone; `None` exactly for erroneous text.
#[verifier::external_body]
fn split_words(s: &str) -> (r: Option<Vec<String>>)
    ensures
        r is Some <==> shell_split(s@) is Some,
        r is Some ==> r->0@.map_values(|w: String| w@) == shell_split(s@)->0,
{
    shlex::split(s)
}

/// The filter handed to the export call: the configured filter, a space, and
/// the context's filter (which is empty when no context is set).
pub fn combined_filter(filter: &str, context_filter: &str) -> (f: String)
    ensures
        f@ == filter@ + " "@ + context_filter@,
{
    let mut f = filter.to_owned();
    f.append(" ");
    f.append(context_filter);
    f
}

/// The argument list for the task export call: the three fixed export
/// arguments, then the shell words of the filter.  A filter that does not
/// split cleanly contributes one empty argument instead, as the tool would
/// otherwise receive from a shell.
pub fn export_args(filter: &str) -> (args: Vec<String>)
    ensures
        args@.len() >= 3,
        args@[0]@ == "rc.json.array=on"@,
        args@[1]@ == "rc.confirmation=off"@,
        args@[2]@ == "export"@,
        match shell_split(filter@) {
            Some(words) => args@.map_values(|s: String| s@).skip(3) == words,
            None => args@.len() == 4 && args@[3]@ == ""@,
        },
{
    let mut args: Vec<String> = Vec::new();
    args.push("rc.json.array=on".to_owned());
    args.push("rc.confirmation=off".to_owned());
    args.push("export".to_owned());
    let ghost head = args@;
    match split_words(filter) {
        Some(mut words) => {
            let ghost wordsv = words@;
            args.append(&mut words);
            proof {
                let mapped = args@.map_values(|s: String| s@);
                let goal = shell_split(filter@)->0;
                assert(args@ =~= head + wordsv);
                assert(mapped.skip(3) =~= goal) by {
                    assert forall|k: int| 0 <= k < goal.len() implies mapped.skip(3)[k]
                        == goal[k] by {
                        assert(args@[k + 3] == wordsv[k]);
                        assert(wordsv.map_values(|w: String| w@)[k] == wordsv[k]@);
                    }
                }
            }
        },
        None => {
            args.push("".to_owned());
        },
    }
    args
}

/// One trailing newline stripped from a tool's output: the bytes before it,
/// or nothing when the output does not end in a newline.
pub fn strip_trailing_newline(raw: &Vec<u8>) -> (r: Option<Vec<u8>>)
    ensures
        match r {
            Some(v) => raw@.len() > 0 && raw@.last() == 10u8 && v@ == raw@.take(
                raw@.len() - 1,
            ),
            None => raw@.len() == 0 || raw@.last() != 10u8,
        },
{
    let n = raw.len();
    if n == 0 {
        return None;
    }
    if raw[n - 1] != 10u8 {
        return None;
    }
    let mut v: Vec<u8> = Vec::new();
    let mut i: usize = 0;
    while i < n - 1
        invariant
            i <= n - 1,
            n == raw@.len(),
            n >= 1,
            v@ =~= raw@.take(i as int),
        decreases n - 1 - i,
    {
        v.push(raw[i]);
        i = i + 1;
    }
    Some(v)
}

/// The context name the task tool printed: its output stripped of the
/// trailing newline, unless that leaves nothing.  Output without a trailing
/// newline counts as no context at all.
pub fn context_name(raw: &Vec<u8>) -> (r: Option<Vec<u8>>)
    ensures
        match r {
            Some(v) => raw@.len() > 1 && raw@.last() == 10u8 && v@ == raw@.take(
                raw@.len() - 1,
            ),
            None => raw@.len() <= 1 || raw@.last() != 10u8,
        },
{
    match strip_trailing_newline(raw) {
        Some(v) => {
            if v.len() == 0 {
                None
            } else {
                Some(v)
            }
        },
        None => None,
    }
}

/// The setting that holds a context's filter, as the query argument the task
/// tool expects.
pub fn context_query_arg(context: &str) -> (a: String)
    ensures
        a@ == "rc.context."@ + context@,
{
    let mut a = "rc.context.".to_owned();
    a.append(context);
    a
}

} // verus!
