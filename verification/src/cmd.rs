//! Building, formatting and concluding invocations of external command-line
//! tools.
//!
//! A binary locator is a single string naming the executable, optionally
//! prefixed by a working-directory path and whitespace. The builder splits
//! the locator, the formatter renders an auditable log line, and the
//! entry points hand a fully-resolved [`ProcessSpec`] to a caller-supplied
//! runner — the one step this crate cannot perform itself, since it owns no
//! process or pipe — and map whatever the runner observed into the uniform
//! success/failure result.

use vstd::prelude::*;

use crate::error::{ExitStatus, SimpleError, SimpleErrorKind};

verus! {

/// The characters on which a binary locator is split: the Unicode
/// characters with the White_Space property.
pub open spec fn is_locator_space(c: char) -> bool {
    let u = c as u32;
    (0x9 <= u && u <= 0xD) || u == 0x20 || u == 0x85 || u == 0xA0 || u == 0x1680 || (0x2000 <= u
        && u <= 0x200A) || u == 0x2028 || u == 0x2029 || u == 0x202F || u == 0x205F || u == 0x3000
}

fn locator_space(c: char) -> (r: bool)
    ensures
        r == is_locator_space(c),
{
    let u = c as u32;
    (0x9 <= u && u <= 0xD) || u == 0x20 || u == 0x85 || u == 0xA0 || u == 0x1680 || (0x2000 <= u
        && u <= 0x200A) || u == 0x2028 || u == 0x2029 || u == 0x202F || u == 0x205F || u == 0x3000
}

/// The tokens of `s` once the current token `cur` and the finished tokens
/// `acc` are as given: a left-to-right fold over the remaining characters.
pub open spec fn tokens_from(s: Seq<char>, cur: Seq<char>, acc: Seq<Seq<char>>) -> Seq<Seq<char>>
    decreases s.len(),
{
    if s.len() == 0 {
        if cur.len() == 0 {
            acc
        } else {
            acc.push(cur)
        }
    } else if is_locator_space(s[0]) {
        if cur.len() == 0 {
            tokens_from(s.drop_first(), Seq::empty(), acc)
        } else {
            tokens_from(s.drop_first(), Seq::empty(), acc.push(cur))
        }
    } else {
        tokens_from(s.drop_first(), cur.push(s[0]), acc)
    }
}

/// The maximal whitespace-free tokens of a locator, in order.
pub open spec fn whitespace_tokens(s: Seq<char>) -> Seq<Seq<char>> {
    tokens_from(s, Seq::empty(), Seq::empty())
}

/// The views of a sequence of owned strings.
pub open spec fn views_of(items: Seq<String>) -> Seq<Seq<char>> {
    items.map_values(|s: String| s@)
}

/// The views of a sequence of string slices.
pub open spec fn str_views(items: Seq<&str>) -> Seq<Seq<char>> {
    items.map_values(|s: &str| s@)
}

/// Split a binary locator into its whitespace-separated tokens.
fn split_locator(binary: &str) -> (r: Vec<String>)
    ensures
        views_of(r@) == whitespace_tokens(binary@),
{
    let n: usize = binary.unicode_len();
    let mut toks: Vec<String> = Vec::new();
    let mut start: usize = 0;
    let mut in_token: bool = false;
    let mut i: usize = 0;
    proof {
        assert(binary@.skip(0) =~= binary@);
        assert(views_of(toks@) =~= Seq::<Seq<char>>::empty());
    }
    while i < n
        invariant
            n == binary@.len(),
            i <= n,
            in_token ==> start < i,
            !in_token ==> start <= i,
            whitespace_tokens(binary@) == tokens_from(
                binary@.skip(i as int),
                if in_token {
                    binary@.subrange(start as int, i as int)
                } else {
                    Seq::empty()
                },
                views_of(toks@),
            ),
        decreases n - i,
    {
        let ghost cur: Seq<char> = if in_token {
            binary@.subrange(start as int, i as int)
        } else {
            Seq::empty()
        };
        proof {
            assert(binary@.skip(i as int)[0] == binary@[i as int]);
            assert(binary@.skip(i as int).drop_first() =~= binary@.skip(i + 1));
        }
        let c = binary.get_char(i);
        if locator_space(c) {
            if in_token {
                let tok = binary.substring_char(start, i).to_owned();
                proof {
                    assert(views_of(toks@.push(tok)) =~= views_of(toks@).push(cur));
                }
                toks.push(tok);
                in_token = false;
            }
            start = i + 1;
        } else {
            if !in_token {
                start = i;
                in_token = true;
            }
            proof {
                assert(binary@.subrange(start as int, i + 1) =~= cur.push(binary@[i as int]));
            }
        }
        i += 1;
    }
    proof {
        assert(binary@.skip(n as int) =~= Seq::<char>::empty());
    }
    if in_token {
        let ghost cur: Seq<char> = binary@.subrange(start as int, n as int);
        let tok = binary.substring_char(start, n).to_owned();
        proof {
            assert(views_of(toks@.push(tok)) =~= views_of(toks@).push(cur));
        }
        toks.push(tok);
    }
    toks
}

/// A fully-resolved process specification: where to run, what to run, the
/// arguments in their exact order, and the environment overrides to apply
/// on top of the inherited environment, later entries overriding earlier
/// ones of the same name. Whoever launches it must capture both standard
/// output and standard error through pipes; they are never inherited.
#[derive(Debug)]
pub struct ProcessSpec {
    pub current_dir: Option<String>,
    pub binary: String,
    pub args: Vec<String>,
    pub envs: Vec<(String, String)>,
}

/// The views of a sequence of environment override pairs.
pub open spec fn env_views(envs: Seq<(&str, &str)>) -> Seq<(Seq<char>, Seq<char>)> {
    envs.map_values(|e: (&str, &str)| (e.0@, e.1@))
}

/// The views of a sequence of owned environment override pairs.
pub open spec fn owned_env_views(envs: Seq<(String, String)>) -> Seq<(Seq<char>, Seq<char>)> {
    envs.map_values(|e: (String, String)| (e.0@, e.1@))
}

impl ProcessSpec {
    /// This specification is exactly what the builder produces from the
    /// given locator, arguments and environment overrides: the locator's
    /// first token is the working directory when a second token names the
    /// binary, otherwise the only token is the binary and no directory is
    /// set; arguments and overrides are kept verbatim, in order.
    pub open spec fn builds_from(
        self,
        locator: Seq<char>,
        args: Seq<Seq<char>>,
        envs: Seq<(Seq<char>, Seq<char>)>,
    ) -> bool {
        let toks = whitespace_tokens(locator);
        &&& toks.len() >= 1
        &&& if toks.len() == 1 {
            self.current_dir is None && self.binary@ == toks[0]
        } else {
            (match self.current_dir {
                Some(d) => d@ == toks[0],
                None => false,
            }) && self.binary@ == toks[1]
        }
        &&& views_of(self.args@) == args
        &&& owned_env_views(self.envs@) == envs
    }
}

proof fn lemma_tokens_from_lower(s: Seq<char>, cur: Seq<char>, acc: Seq<Seq<char>>)
    ensures
        tokens_from(s, cur, acc).len() >= acc.len(),
        (cur.len() > 0 || exists|i: int| 0 <= i < s.len() && !is_locator_space(s[i]))
            ==> tokens_from(s, cur, acc).len() >= acc.len() + 1,
    decreases s.len(),
{
    if s.len() == 0 {
    } else if is_locator_space(s[0]) {
        if cur.len() == 0 {
            lemma_tokens_from_lower(s.drop_first(), Seq::empty(), acc);
        } else {
            lemma_tokens_from_lower(s.drop_first(), Seq::empty(), acc.push(cur));
        }
        if exists|i: int| 0 <= i < s.len() && !is_locator_space(s[i]) {
            let i = choose|i: int| 0 <= i < s.len() && !is_locator_space(s[i]);
            assert(i >= 1);
            assert(s.drop_first()[i - 1] == s[i]);
            assert(exists|k: int|
                0 <= k < s.drop_first().len() && !is_locator_space(s.drop_first()[k]));
        }
    } else {
        lemma_tokens_from_lower(s.drop_first(), cur.push(s[0]), acc);
    }
}

/// A locator that holds any non-whitespace character splits into at least
/// one token, so the builder accepts it.
pub proof fn lemma_nonblank_locator_has_token(s: Seq<char>)
    requires
        exists|i: int| 0 <= i < s.len() && !is_locator_space(s[i]),
    ensures
        whitespace_tokens(s).len() >= 1,
{
    lemma_tokens_from_lower(s, Seq::empty(), Seq::empty());
}

/// The message carried by the error for a locator with no token at all.
pub open spec fn empty_locator_message() -> Seq<char> {
    "binary locator contains no executable token"@
}

fn owned_args(args: &Vec<&str>) -> (r: Vec<String>)
    ensures
        views_of(r@) == str_views(args@),
{
    let mut out: Vec<String> = Vec::new();
    let mut i: usize = 0;
    while i < args.len()
        invariant
            i <= args@.len(),
            views_of(out@) =~= str_views(args@).take(i as int),
        decreases args@.len() - i,
    {
        let a: String = args[i].to_owned();
        proof {
            assert(views_of(out@.push(a)) =~= views_of(out@).push(a@));
            assert(str_views(args@).take(i + 1) =~= str_views(args@).take(i as int).push(
                args@[i as int]@,
            ));
        }
        out.push(a);
        i += 1;
    }
    proof {
        assert(str_views(args@).take(args@.len() as int) =~= str_views(args@));
    }
    out
}

fn owned_envs(envs: &Vec<(&str, &str)>) -> (r: Vec<(String, String)>)
    ensures
        owned_env_views(r@) == env_views(envs@),
{
    let mut out: Vec<(String, String)> = Vec::new();
    let mut i: usize = 0;
    while i < envs.len()
        invariant
            i <= envs@.len(),
            owned_env_views(out@) =~= env_views(envs@).take(i as int),
        decreases envs@.len() - i,
    {
        let k: String = envs[i].0.to_owned();
        let v: String = envs[i].1.to_owned();
        proof {
            assert(owned_env_views(out@.push((k, v))) =~= owned_env_views(out@).push((k@, v@)));
            assert(env_views(envs@).take(i + 1) =~= env_views(envs@).take(i as int).push(
                (envs@[i as int].0@, envs@[i as int].1@),
            ));
        }
        out.push((k, v));
        i += 1;
    }
    proof {
        assert(env_views(envs@).take(envs@.len() as int) =~= env_views(envs@));
    }
    out
}

/// Build a launchable [`ProcessSpec`] from a binary locator, an argument
/// list and optional environment overrides. Pure data transformation: it
/// creates no process and performs no reads. A locator that splits into no
/// token at all is malformed and rejected.
pub fn command(binary: &str, args: Vec<&str>, envs: Option<Vec<(&str, &str)>>) -> (r: Result<
    ProcessSpec,
    SimpleError,
>)
    ensures
        match r {
            Ok(s) => whitespace_tokens(binary@).len() >= 1 && s.builds_from(
                binary@,
                str_views(args@),
                match envs {
                    Some(e) => env_views(e@),
                    None => Seq::empty(),
                },
            ),
            Err(e) => whitespace_tokens(binary@).len() == 0 && e.is_error(
                SimpleErrorKind::InvalidInput,
                empty_locator_message(),
            ),
        },
        (exists|i: int| 0 <= i < binary@.len() && !is_locator_space(binary@[i])) ==> r is Ok,
{
    proof {
        if exists|i: int| 0 <= i < binary@.len() && !is_locator_space(binary@[i]) {
            lemma_nonblank_locator_has_token(binary@);
        }
    }
    let mut toks = split_locator(binary);
    if toks.len() == 0 {
        proof {
            assert(whitespace_tokens(binary@).len() == 0);
        }
        return Err(
            SimpleError::new(
                SimpleErrorKind::InvalidInput,
                Some("binary locator contains no executable token"),
            ),
        );
    }
    let env_list: Vec<(String, String)> = match &envs {
        Some(e) => owned_envs(e),
        None => Vec::new(),
    };
    proof {
        assert(owned_env_views(Seq::<(String, String)>::empty()) =~= Seq::<
            (Seq<char>, Seq<char>),
        >::empty());
    }
    let arg_list = owned_args(&args);
    if toks.len() == 1 {
        let binary_token = toks.remove(0);
        Ok(
            ProcessSpec {
                current_dir: None,
                binary: binary_token,
                args: arg_list,
                envs: env_list,
            },
        )
    } else {
        let dir_token = toks.remove(0);
        let binary_token = toks.remove(0);
        Ok(
            ProcessSpec {
                current_dir: Some(dir_token),
                binary: binary_token,
                args: arg_list,
                envs: env_list,
            },
        )
    }
}

/// The given pieces joined with a single space between consecutive pieces.
pub open spec fn join_space(items: Seq<Seq<char>>) -> Seq<char>
    decreases items.len(),
{
    if items.len() == 0 {
        Seq::empty()
    } else if items.len() == 1 {
        items[0]
    } else {
        items[0] + seq![' '] + join_space(items.drop_first())
    }
}

/// Joining one more piece appends a space and that piece, except onto an
/// empty join, which becomes the piece itself.
pub proof fn lemma_join_space_push(items: Seq<Seq<char>>, last: Seq<char>)
    ensures
        join_space(items.push(last)) == if items.len() == 0 {
            last
        } else {
            join_space(items) + seq![' '] + last
        },
    decreases items.len(),
{
    if items.len() == 0 {
        assert(items.push(last)[0] == last);
        assert(join_space(items.push(last)) == last);
    } else if items.len() == 1 {
        assert(items.push(last).drop_first() =~= seq![last]);
        assert(items.push(last)[0] == items[0]);
        assert(join_space(seq![last]) == last);
        assert(join_space(items.push(last)) == items[0] + seq![' '] + last);
        assert(join_space(items) == items[0]);
        assert(join_space(items.push(last)) =~= join_space(items) + seq![' '] + last);
    } else {
        assert(items.push(last).drop_first() =~= items.drop_first().push(last));
        lemma_join_space_push(items.drop_first(), last);
        assert(items.push(last)[0] == items[0]);
        assert(join_space(items.push(last)) == items[0] + seq![' '] + (join_space(
            items.drop_first(),
        ) + seq![' '] + last));
        assert(items[0] + seq![' '] + (join_space(items.drop_first()) + seq![' '] + last) =~= (
        items[0] + seq![' '] + join_space(items.drop_first())) + seq![' '] + last);
    }
}

/// Join owned strings with single spaces.
fn join_with_spaces(items: &Vec<String>) -> (r: String)
    ensures
        r@ == join_space(views_of(items@)),
{
    let mut out = String::new();
    let mut i: usize = 0;
    proof {
        assert(views_of(items@).take(0) =~= Seq::<Seq<char>>::empty());
    }
    while i < items.len()
        invariant
            i <= items@.len(),
            out@ == join_space(views_of(items@).take(i as int)),
        decreases items@.len() - i,
    {
        if i > 0 {
            out.append(" ");
            proof {
                reveal_strlit(" ");
                assert(" "@ =~= seq![' ']);
            }
        }
        out.append(items[i].as_str());
        proof {
            lemma_join_space_push(views_of(items@).take(i as int), items@[i as int]@);
            assert(views_of(items@).take(i + 1) =~= views_of(items@).take(i as int).push(
                items@[i as int]@,
            ));
        }
        i += 1;
    }
    proof {
        assert(views_of(items@).take(items@.len() as int) =~= views_of(items@));
    }
    out
}

/// How a log line displays a binary locator: its first
/// whitespace-separated token — the empty string when it has none. Tokens
/// past the first are not rendered.
pub open spec fn rendered_binary(locator: Seq<char>) -> Seq<char> {
    let toks = whitespace_tokens(locator);
    if toks.len() == 0 {
        Seq::empty()
    } else {
        toks[0]
    }
}

/// Render a command as a single log line: the locator's rendered form,
/// one space, then the arguments joined by single spaces. Pure; it never
/// runs the process and rejects nothing.
pub fn command_to_string(binary: &str, args: &Vec<&str>) -> (r: String)
    ensures
        r@ == rendered_binary(binary@) + seq![' '] + join_space(str_views(args@)),
{
    let mut toks = split_locator(binary);
    let mut out = if toks.len() > 0 {
        toks.remove(0)
    } else {
        String::new()
    };
    out.append(" ");
    proof {
        reveal_strlit(" ");
        assert(" "@ =~= seq![' ']);
    }
    let owned = owned_args(args);
    let joined = join_with_spaces(&owned);
    out.append(joined.as_str());
    out
}

/// One environment override rendered for a log line.
pub open spec fn env_pair_view(k: Seq<char>, v: Seq<char>) -> Seq<char> {
    k + seq!['='] + v
}

/// The rendered `NAME=value` pieces of a list of environment overrides.
pub open spec fn env_pair_views(envs: Seq<(&str, &str)>) -> Seq<Seq<char>> {
    envs.map_values(|e: (&str, &str)| env_pair_view(e.0@, e.1@))
}

fn rendered_env_pairs(envs: &Vec<(&str, &str)>) -> (r: Vec<String>)
    ensures
        views_of(r@) == env_pair_views(envs@),
{
    let mut out: Vec<String> = Vec::new();
    let mut i: usize = 0;
    while i < envs.len()
        invariant
            i <= envs@.len(),
            views_of(out@) =~= env_pair_views(envs@).take(i as int),
        decreases envs@.len() - i,
    {
        let mut pair = String::from_str(envs[i].0);
        pair.append("=");
        proof {
            reveal_strlit("=");
            assert("="@ =~= seq!['=']);
        }
        pair.append(envs[i].1);
        proof {
            assert(views_of(out@.push(pair)) =~= views_of(out@).push(pair@));
            assert(env_pair_views(envs@).take(i + 1) =~= env_pair_views(envs@).take(i as int).push(
                env_pair_view(envs@[i as int].0@, envs@[i as int].1@),
            ));
        }
        out.push(pair);
        i += 1;
    }
    proof {
        assert(env_pair_views(envs@).take(envs@.len() as int) =~= env_pair_views(envs@));
    }
    out
}

/// Render a command with environment overrides as a single log line: the
/// `NAME=value` pairs joined by spaces, one space, the locator's rendered
/// form, one space, then the arguments joined by single spaces.
pub fn command_with_envs_to_string(binary: &str, args: &Vec<&str>, envs: &Vec<(&str, &str)>) -> (r:
    String)
    ensures
        r@ == join_space(env_pair_views(envs@)) + seq![' '] + rendered_binary(binary@) + seq![' ']
            + join_space(str_views(args@)),
{
    let mut toks = split_locator(binary);
    let first = if toks.len() > 0 {
        toks.remove(0)
    } else {
        String::new()
    };
    let pairs = rendered_env_pairs(envs);
    let mut out = join_with_spaces(&pairs);
    out.append(" ");
    out.append(first.as_str());
    out.append(" ");
    proof {
        reveal_strlit(" ");
        assert(" "@ =~= seq![' ']);
    }
    let owned = owned_args(args);
    let joined = join_with_spaces(&owned);
    out.append(joined.as_str());
    proof {
        assert((join_space(env_pair_views(envs@)) + seq![' ']) + rendered_binary(binary@) + seq![
            ' ',
        ] + join_space(str_views(args@)) =~= join_space(env_pair_views(envs@)) + seq![' ']
            + rendered_binary(binary@) + seq![' '] + join_space(str_views(args@)));
    }
    out
}

/// The message carried by the failure for a process that exited without
/// success.
pub open spec fn command_failure_message() -> Seq<char> {
    "error while executing an internal command"@
}

/// How a wait outcome is read: a successful exit is success; a normal run
/// that exited without success is a `Command` failure carrying the full
/// exit status; an error from launching or waiting is handed through
/// unchanged.
pub open spec fn wait_outcome_to_result(
    w: Result<ExitStatus, SimpleError>,
    r: Result<(), SimpleError>,
) -> bool {
    match w {
        Ok(st) => if st.is_success() {
            r == Ok::<(), SimpleError>(())
        } else {
            match r {
                Ok(_) => false,
                Err(e) => e.is_error(SimpleErrorKind::Command(st), command_failure_message()),
            }
        },
        Err(e0) => r == Err::<(), SimpleError>(e0),
    }
}

/// Translate what the runner observed — an exit status, or an error from
/// launching or waiting — into the uniform invocation result.
pub fn map_wait_outcome(w: Result<ExitStatus, SimpleError>) -> (r: Result<(), SimpleError>)
    ensures
        wait_outcome_to_result(w, r),
{
    match w {
        Ok(st) => {
            if st.success() {
                Ok(())
            } else {
                Err(
                    SimpleError::new(
                        SimpleErrorKind::Command(st),
                        Some("error while executing an internal command"),
                    ),
                )
            }
        },
        Err(e) => Err(e),
    }
}

/// For every binary and argument list, a run whose process exited with
/// code zero yields success.
pub proof fn lemma_zero_exit_yields_success(
    w: Result<ExitStatus, SimpleError>,
    r: Result<(), SimpleError>,
)
    requires
        w matches Ok(st) && st.code == Some(0i32),
        wait_outcome_to_result(w, r),
    ensures
        r is Ok,
{
}

/// For every binary and argument list, a run whose process exited with a
/// nonzero code yields a failure that carries exactly that code.
pub proof fn lemma_nonzero_exit_carries_status(
    w: Result<ExitStatus, SimpleError>,
    r: Result<(), SimpleError>,
    n: i32,
)
    requires
        w matches Ok(st) && st.code == Some(n) && n != 0,
        wait_outcome_to_result(w, r),
    ensures
        r matches Err(e) && e.kind matches SimpleErrorKind::Command(st) && st.code == Some(n),
{
}

/// Launch the command described by a locator and arguments through the
/// given runner and wait for it. The runner receives the fully-resolved
/// specification, must capture and fully drain both output streams before
/// waiting, and reports the exit status or a launch or wait error; the
/// result read from that report is pinned by [`wait_outcome_to_result`].
pub fn exec<R>(binary: &str, args: Vec<&str>, runner: R) -> (r: Result<(), SimpleError>) where
    R: FnOnce(ProcessSpec) -> Result<ExitStatus, SimpleError>,

    requires
        forall|s: ProcessSpec|
            s.builds_from(binary@, str_views(args@), Seq::empty()) ==> #[trigger] call_requires(
                runner,
                (s,),
            ),
    ensures
        whitespace_tokens(binary@).len() == 0 ==> (r matches Err(e) && e.is_error(
            SimpleErrorKind::InvalidInput,
            empty_locator_message(),
        )),
        whitespace_tokens(binary@).len() >= 1 ==> exists|
            s: ProcessSpec,
            w: Result<ExitStatus, SimpleError>,
        |
            s.builds_from(binary@, str_views(args@), Seq::empty()) && #[trigger] call_ensures(
                runner,
                (s,),
                w,
            ) && wait_outcome_to_result(w, r),
{
    match command(binary, args, None) {
        Err(e) => Err(e),
        Ok(s) => {
            let ghost spec_snapshot = s;
            let w = runner(s);
            let r = map_wait_outcome(w);
            proof {
                assert(call_ensures(runner, (spec_snapshot,), w));
            }
            r
        },
    }
}

/// As [`exec`], with environment overrides applied on top of the inherited
/// environment before launch.
pub fn exec_with_envs<R>(
    binary: &str,
    args: Vec<&str>,
    envs: Vec<(&str, &str)>,
    runner: R,
) -> (r: Result<(), SimpleError>) where
    R: FnOnce(ProcessSpec) -> Result<ExitStatus, SimpleError>,

    requires
        forall|s: ProcessSpec|
            s.builds_from(binary@, str_views(args@), env_views(envs@)) ==> #[trigger] call_requires(
                runner,
                (s,),
            ),
    ensures
        whitespace_tokens(binary@).len() == 0 ==> (r matches Err(e) && e.is_error(
            SimpleErrorKind::InvalidInput,
            empty_locator_message(),
        )),
        whitespace_tokens(binary@).len() >= 1 ==> exists|
            s: ProcessSpec,
            w: Result<ExitStatus, SimpleError>,
        |
            s.builds_from(binary@, str_views(args@), env_views(envs@)) && #[trigger] call_ensures(
                runner,
                (s,),
                w,
            ) && wait_outcome_to_result(w, r),
{
    match command(binary, args, Some(envs)) {
        Err(e) => Err(e),
        Ok(s) => {
            let ghost spec_snapshot = s;
            let w = runner(s);
            let r = map_wait_outcome(w);
            proof {
                assert(call_ensures(runner, (spec_snapshot,), w));
            }
            r
        },
    }
}

/// Everything a runner observed of one finished process: the lines of each
/// output stream in the order that stream produced them — a read error in
/// place of a line where one occurred, without aborting the sibling stream
/// — and the wait outcome. Both streams must have reached end-of-stream
/// before the wait, so the lists are complete.
#[derive(Debug)]
pub struct Observation {
    pub stdout_lines: Vec<Result<String, SimpleError>>,
    pub stderr_lines: Vec<Result<String, SimpleError>>,
    pub wait: Result<ExitStatus, SimpleError>,
}

/// Feed each entry of one stream, in order, to its handler.
fn dispatch_lines<F>(lines: Vec<Result<String, SimpleError>>, handler: &mut F) where
    F: FnMut(Result<String, SimpleError>),

    requires
        forall|l: Result<String, SimpleError>| #[trigger] call_requires(*old(handler), (l,)),
{
    let mut remaining = lines;
    while remaining.len() > 0
        invariant
            forall|l: Result<String, SimpleError>| #[trigger] call_requires(*handler, (l,)),
        decreases remaining@.len(),
    {
        let line = remaining.remove(0);
        handler(line);
    }
}

/// As [`exec`], but streaming: each line (or read error) of standard
/// output goes to `stdout_output` and each of standard error to
/// `stderr_output`, once per line, in the order the stream produced them,
/// before this call returns.
pub fn exec_with_output<R, F, X>(
    binary: &str,
    args: Vec<&str>,
    stdout_output: F,
    stderr_output: X,
    runner: R,
) -> (r: Result<(), SimpleError>) where
    R: FnOnce(ProcessSpec) -> Observation,
    F: FnMut(Result<String, SimpleError>),
    X: FnMut(Result<String, SimpleError>),

    requires
        forall|s: ProcessSpec|
            s.builds_from(binary@, str_views(args@), Seq::empty()) ==> #[trigger] call_requires(
                runner,
                (s,),
            ),
        forall|l: Result<String, SimpleError>| #[trigger] call_requires(stdout_output, (l,)),
        forall|l: Result<String, SimpleError>| #[trigger] call_requires(stderr_output, (l,)),
    ensures
        whitespace_tokens(binary@).len() == 0 ==> (r matches Err(e) && e.is_error(
            SimpleErrorKind::InvalidInput,
            empty_locator_message(),
        )),
        whitespace_tokens(binary@).len() >= 1 ==> exists|s: ProcessSpec, obs: Observation|
            s.builds_from(binary@, str_views(args@), Seq::empty()) && #[trigger] call_ensures(
                runner,
                (s,),
                obs,
            ) && wait_outcome_to_result(obs.wait, r),
{
    match command(binary, args, None) {
        Err(e) => Err(e),
        Ok(s) => {
            let ghost spec_snapshot = s;
            let obs = runner(s);
            proof {
                assert(call_ensures(runner, (spec_snapshot,), obs));
            }
            let ghost wait_snapshot = obs.wait;
            let mut stdout_handler = stdout_output;
            let mut stderr_handler = stderr_output;
            dispatch_lines(obs.stdout_lines, &mut stdout_handler);
            dispatch_lines(obs.stderr_lines, &mut stderr_handler);
            map_wait_outcome(obs.wait)
        },
    }
}

/// As [`exec_with_output`], with environment overrides applied on top of
/// the inherited environment before launch.
pub fn exec_with_envs_and_output<R, F, X>(
    binary: &str,
    args: Vec<&str>,
    envs: Vec<(&str, &str)>,
    stdout_output: F,
    stderr_output: X,
    runner: R,
) -> (r: Result<(), SimpleError>) where
    R: FnOnce(ProcessSpec) -> Observation,
    F: FnMut(Result<String, SimpleError>),
    X: FnMut(Result<String, SimpleError>),

    requires
        forall|s: ProcessSpec|
            s.builds_from(binary@, str_views(args@), env_views(envs@)) ==> #[trigger] call_requires(
                runner,
                (s,),
            ),
        forall|l: Result<String, SimpleError>| #[trigger] call_requires(stdout_output, (l,)),
        forall|l: Result<String, SimpleError>| #[trigger] call_requires(stderr_output, (l,)),
    ensures
        whitespace_tokens(binary@).len() == 0 ==> (r matches Err(e) && e.is_error(
            SimpleErrorKind::InvalidInput,
            empty_locator_message(),
        )),
        whitespace_tokens(binary@).len() >= 1 ==> exists|s: ProcessSpec, obs: Observation|
            s.builds_from(binary@, str_views(args@), env_views(envs@)) && #[trigger] call_ensures(
                runner,
                (s,),
                obs,
            ) && wait_outcome_to_result(obs.wait, r),
{
    match command(binary, args, Some(envs)) {
        Err(e) => Err(e),
        Ok(s) => {
            let ghost spec_snapshot = s;
            let obs = runner(s);
            proof {
                assert(call_ensures(runner, (spec_snapshot,), obs));
            }
            let mut stdout_handler = stdout_output;
            let mut stderr_handler = stderr_output;
            dispatch_lines(obs.stdout_lines, &mut stdout_handler);
            dispatch_lines(obs.stderr_lines, &mut stderr_handler);
            map_wait_outcome(obs.wait)
        },
    }
}

/// The concatenation of the successfully read lines, in order, read errors
/// skipped.
pub open spec fn concat_ok_lines(lines: Seq<Result<String, SimpleError>>) -> Seq<char>
    decreases lines.len(),
{
    if lines.len() == 0 {
        Seq::empty()
    } else {
        (match lines[0] {
            Ok(l) => l@,
            Err(_) => Seq::empty(),
        }) + concat_ok_lines(lines.drop_first())
    }
}

proof fn lemma_concat_ok_lines_push(lines: Seq<Result<String, SimpleError>>, last: Result<
    String,
    SimpleError,
>)
    ensures
        concat_ok_lines(lines.push(last)) == concat_ok_lines(lines) + (match last {
            Ok(l) => l@,
            Err(_) => Seq::<char>::empty(),
        }),
    decreases lines.len(),
{
    let last_view = match last {
        Ok(l) => l@,
        Err(_) => Seq::<char>::empty(),
    };
    if lines.len() == 0 {
        assert(lines.push(last)[0] == last);
        assert(lines.push(last).drop_first() =~= Seq::<Result<String, SimpleError>>::empty());
        assert(concat_ok_lines(lines.push(last)) == last_view + concat_ok_lines(
            Seq::<Result<String, SimpleError>>::empty(),
        ));
        assert(last_view + Seq::<char>::empty() =~= last_view);
        assert(concat_ok_lines(lines) + last_view =~= last_view);
    } else {
        assert(lines.push(last).drop_first() =~= lines.drop_first().push(last));
        lemma_concat_ok_lines_push(lines.drop_first(), last);
        assert(lines.push(last)[0] == lines[0]);
        let head_view = match lines[0] {
            Ok(l) => l@,
            Err(_) => Seq::<char>::empty(),
        };
        assert(concat_ok_lines(lines.push(last)) == head_view + (concat_ok_lines(
            lines.drop_first(),
        ) + last_view));
        assert(head_view + (concat_ok_lines(lines.drop_first()) + last_view) =~= (head_view
            + concat_ok_lines(lines.drop_first())) + last_view);
    }
}

/// Probe a tool's version: run the binary with a single `--version`
/// argument through the given runner and give back the concatenation of
/// the standard-output lines it observed, in order — the empty string when
/// nothing was captured or the locator was malformed. Standard error and
/// the exit status are discarded.
pub fn run_version_command_for<R>(binary_name: &str, runner: R) -> (r: String) where
    R: FnOnce(ProcessSpec) -> Observation,

    requires
        forall|s: ProcessSpec|
            s.builds_from(binary_name@, seq!["--version"@], Seq::empty())
                ==> #[trigger] call_requires(runner, (s,)),
    ensures
        whitespace_tokens(binary_name@).len() == 0 ==> r@ == Seq::<char>::empty(),
        whitespace_tokens(binary_name@).len() >= 1 ==> exists|s: ProcessSpec, obs: Observation|
            s.builds_from(binary_name@, seq!["--version"@], Seq::empty()) && #[trigger] call_ensures(
                runner,
                (s,),
                obs,
            ) && r@ == concat_ok_lines(obs.stdout_lines@),
{
    let args: Vec<&str> = vec!["--version"];
    proof {
        assert(str_views(args@) =~= seq!["--version"@]);
    }
    match command(binary_name, args, None) {
        Err(_) => String::new(),
        Ok(s) => {
            let ghost spec_snapshot = s;
            let obs = runner(s);
            proof {
                assert(call_ensures(runner, (spec_snapshot,), obs));
            }
            let mut out = String::new();
            let mut remaining = obs.stdout_lines;
            let ghost all_lines = remaining@;
            let ghost consumed: int = 0;
            while remaining.len() > 0
                invariant
                    0 <= consumed <= all_lines.len(),
                    remaining@ =~= all_lines.skip(consumed),
                    out@ == concat_ok_lines(all_lines.take(consumed)),
                decreases remaining@.len(),
            {
                proof {
                    assert(all_lines.take(consumed + 1) =~= all_lines.take(consumed).push(
                        all_lines[consumed],
                    ));
                    lemma_concat_ok_lines_push(all_lines.take(consumed), all_lines[consumed]);
                    assert(remaining@[0] == all_lines[consumed]);
                }
                let line = remaining.remove(0);
                match line {
                    Ok(l) => out.append(l.as_str()),
                    Err(_) => (),
                }
                proof {
                    consumed = consumed + 1;
                    assert(remaining@ =~= all_lines.skip(consumed));
                }
            }
            proof {
                assert(all_lines.take(all_lines.len() as int) =~= all_lines);
            }
            out
        },
    }
}

} // verus!
