//! Normalizing the arguments handed to the diff tool.
//!
//! Each token is read once as `--name` (its value is the next token),
//! `--name=value`, or anything else; a token that merely begins with a flag's
//! name (`--displayfoo`) is anything else.
use vstd::prelude::*;

use crate::color::{always_word, color_setting_of, parse_color_value, ColorSetting};
use crate::text::{chars_of, same_text};

verus! {

pub open spec fn color_flag() -> Seq<char> {
    seq!['-', '-', 'c', 'o', 'l', 'o', 'r']
}

pub open spec fn display_flag() -> Seq<char> {
    seq!['-', '-', 'd', 'i', 's', 'p', 'l', 'a', 'y']
}

pub open spec fn inline_word() -> Seq<char> {
    seq!['i', 'n', 'l', 'i', 'n', 'e']
}

/// `--color=always`, which every forwarded argument list starts with.
pub open spec fn forced_color() -> Seq<char> {
    color_flag() + seq!['='] + always_word()
}

/// `--display=inline`, put in front when no display mode is given.
pub open spec fn default_display() -> Seq<char> {
    display_flag() + seq!['='] + inline_word()
}

/// The shape of one token with respect to a flag name.
#[derive(Clone, Copy, Debug, PartialEq, Eq, Structural)]
pub enum FlagToken {
    /// The bare flag: its value is the next token.
    Separate,
    /// The flag, `=` and its value, in one token.
    Joined,
    /// Anything else.
    Other,
}

pub open spec fn is_joined(tok: Seq<char>, name: Seq<char>) -> bool {
    tok.len() > name.len() && tok.take(name.len() as int) == name && tok[name.len() as int] == '='
}

pub open spec fn joined_value(tok: Seq<char>, name: Seq<char>) -> Seq<char> {
    tok.skip(name.len() + 1 as int)
}

pub open spec fn flag_token_of(tok: Seq<char>, name: Seq<char>) -> FlagToken {
    if tok == name {
        FlagToken::Separate
    } else if is_joined(tok, name) {
        FlagToken::Joined
    } else {
        FlagToken::Other
    }
}

/// What is wrong with an argument list, on the level of character sequences.
pub enum ArgFault {
    /// The flag is the last token and has no value.
    MissingValue(Seq<char>),
    /// `--color` has a value other than `always`, `auto` or `never`.
    InvalidColor(Seq<char>),
    /// The environment override has a value other than `always`, `auto` or `never`.
    InvalidColorEnv(Seq<char>),
    /// `--display` has a value other than `inline`.
    UnsupportedDisplay(Seq<char>),
}

/// Why an argument list is refused. Each variant holds the offending flag
/// name or value.
#[derive(Debug, PartialEq, Eq)]
pub enum ArgError {
    MissingValue(String),
    InvalidColor(String),
    InvalidColorEnv(String),
    UnsupportedDisplay(String),
}

impl View for ArgError {
    type V = ArgFault;

    open spec fn view(&self) -> ArgFault {
        match self {
            ArgError::MissingValue(s) => ArgFault::MissingValue(s@),
            ArgError::InvalidColor(s) => ArgFault::InvalidColor(s@),
            ArgError::InvalidColorEnv(s) => ArgFault::InvalidColorEnv(s@),
            ArgError::UnsupportedDisplay(s) => ArgFault::UnsupportedDisplay(s@),
        }
    }
}

/// The one-line diagnostic for a fault.
pub open spec fn message_of(f: ArgFault) -> Seq<char> {
    match f {
        ArgFault::MissingValue(flag) => "Missing value for "@ + flag,
        ArgFault::InvalidColor(v) => "Invalid value for --color: "@ + v,
        ArgFault::InvalidColorEnv(v) => "Invalid value for DFT_COLOR: "@ + v,
        ArgFault::UnsupportedDisplay(_) => "difftw only supports --display=inline"@,
    }
}

impl ArgError {
    /// The one-line diagnostic shown to the user.
    pub fn message(&self) -> (r: String)
        ensures
            r@ == message_of(self@),
    {
        match self {
            ArgError::MissingValue(flag) => {
                let mut m = "Missing value for ".to_owned();
                m.append(flag.as_str());
                m
            },
            ArgError::InvalidColor(v) => {
                let mut m = "Invalid value for --color: ".to_owned();
                m.append(v.as_str());
                m
            },
            ArgError::InvalidColorEnv(v) => {
                let mut m = "Invalid value for DFT_COLOR: ".to_owned();
                m.append(v.as_str());
                m
            },
            ArgError::UnsupportedDisplay(_) => "difftw only supports --display=inline".to_owned(),
        }
    }
}

/// The result of reading the `--color` flags of an argument list: the other
/// tokens, in order, and the setting that the first `--color` names.
pub open spec fn color_scan(args: Seq<Seq<char>>) -> Result<
    (Seq<Seq<char>>, Option<ColorSetting>),
    ArgFault,
>
    decreases args.len(),
{
    if args.len() == 0 {
        Ok((Seq::empty(), None))
    } else {
        let t = args[0];
        match flag_token_of(t, color_flag()) {
            FlagToken::Separate => if args.len() < 2 {
                Err(ArgFault::MissingValue(color_flag()))
            } else {
                match color_setting_of(args[1]) {
                    None => Err(ArgFault::InvalidColor(args[1])),
                    Some(c) => match color_scan(args.skip(2)) {
                        Err(e) => Err(e),
                        Ok((rest, _)) => Ok((rest, Some(c))),
                    },
                }
            },
            FlagToken::Joined => match color_setting_of(joined_value(t, color_flag())) {
                None => Err(ArgFault::InvalidColor(joined_value(t, color_flag()))),
                Some(c) => match color_scan(args.drop_first()) {
                    Err(e) => Err(e),
                    Ok((rest, _)) => Ok((rest, Some(c))),
                },
            },
            FlagToken::Other => match color_scan(args.drop_first()) {
                Err(e) => Err(e),
                Ok((rest, c)) => Ok((seq![t] + rest, c)),
            },
        }
    }
}

/// A scan of the tokens after `done`, put behind what was read from `done`.
pub open spec fn join_scan(
    done: Seq<Seq<char>>,
    first: Option<ColorSetting>,
    later: Result<(Seq<Seq<char>>, Option<ColorSetting>), ArgFault>,
) -> Result<(Seq<Seq<char>>, Option<ColorSetting>), ArgFault> {
    match later {
        Err(e) => Err(e),
        Ok((rest, c)) => Ok((done + rest, if first is Some { first } else { c })),
    }
}

/// The filter's color policy and the arguments left once every `--color`
/// flag is taken out. The first `--color` decides; without one, the
/// environment override `env` does; without that, `Auto`.
pub open spec fn color_policy(args: Seq<Seq<char>>, env: Option<Seq<char>>) -> Result<
    (Seq<Seq<char>>, ColorSetting),
    ArgFault,
> {
    match color_scan(args) {
        Err(e) => Err(e),
        Ok((rest, Some(c))) => Ok((rest, c)),
        Ok((rest, None)) => match env {
            None => Ok((rest, ColorSetting::Auto)),
            Some(e) => match color_setting_of(e) {
                Some(c) => Ok((rest, c)),
                None => Err(ArgFault::InvalidColorEnv(e)),
            },
        },
    }
}

pub open spec fn opt_view(v: Option<&str>) -> Option<Seq<char>> {
    match v {
        Some(s) => Some(s@),
        None => None,
    }
}

/// How `tok` stands to the flag `name`.
pub fn flag_token(tok: &str, name: &str) -> (r: FlagToken)
    ensures
        r == flag_token_of(tok@, name@),
{
    if same_text(tok, name) {
        return FlagToken::Separate;
    }
    let t = chars_of(tok);
    let n = chars_of(name);
    if t.len() <= n.len() {
        return FlagToken::Other;
    }
    let mut i: usize = 0;
    while i < n.len()
        invariant
            i <= n@.len() < t@.len(),
            t@ == tok@,
            n@ == name@,
            forall|j: int| 0 <= j < i ==> t@[j] == n@[j],
        decreases n@.len() - i,
    {
        if t[i] != n[i] {
            assert(tok@.take(name@.len() as int)[i as int] != name@[i as int]);
            return FlagToken::Other;
        }
        i = i + 1;
    }
    assert(tok@.take(name@.len() as int) =~= name@);
    if t[n.len()] == '=' {
        FlagToken::Joined
    } else {
        FlagToken::Other
    }
}

/// The value of a `--name=value` token, whose name has `name_len` characters.
fn value_after(tok: &str, name_len: usize) -> (r: String)
    requires
        name_len < tok@.len(),
    ensures
        r@ == tok@.skip(name_len + 1),
{
    let len = tok.unicode_len();
    let v = tok.substring_char(name_len + 1, len);
    assert(v@ =~= tok@.skip(name_len + 1));
    v.to_owned()
}

proof fn lemma_join_scan_empty(x: Result<(Seq<Seq<char>>, Option<ColorSetting>), ArgFault>)
    ensures
        join_scan(Seq::empty(), None, x) == x,
{
    match x {
        Ok((rest, c)) => {
            assert(Seq::<Seq<char>>::empty() + rest =~= rest);
        },
        Err(_) => {},
    }
}

/// Takes every `--color` flag, with its value, out of `args`, and returns
/// the filter's color policy: the value of the first `--color`, else that of
/// the environment override `env_color`, else `Auto`. On an error `args` is
/// left as it was.
pub fn parse_color_setting(args: &mut Vec<String>, env_color: Option<&str>) -> (r: Result<
    ColorSetting,
    ArgError,
>)
    ensures
        match color_policy(old(args).deep_view(), opt_view(env_color)) {
            Ok((rest, c)) => r == Ok::<ColorSetting, ArgError>(c) && final(args).deep_view() == rest,
            Err(e) => r is Err && r->Err_0@ == e && *final(args) == *old(args),
        },
{
    proof {
        reveal_strlit("--color");
        assert("--color"@ =~= color_flag());
    }
    let ghost dv = args.deep_view();
    let n = args.len();
    let mut rest: Vec<String> = Vec::new();
    let mut first: Option<ColorSetting> = None;
    let mut i: usize = 0;
    proof {
        assert(dv.skip(0) =~= dv);
        lemma_join_scan_empty(color_scan(dv));
    }
    while i < n
        invariant
            i <= n == args@.len() == dv.len(),
            dv == args.deep_view(),
            *args == *old(args),
            "--color"@ == color_flag(),
            color_scan(dv) == join_scan(rest.deep_view(), first, color_scan(dv.skip(i as int))),
        decreases n - i,
    {
        let tok = args[i].as_str();
        let ghost s = dv.skip(i as int);
        assert(s[0] == tok@);
        assert(s.drop_first() =~= dv.skip(i + 1));
        match flag_token(tok, "--color") {
            FlagToken::Separate => {
                if i + 1 >= n {
                    return Err(ArgError::MissingValue("--color".to_owned()));
                }
                let v = args[i + 1].as_str();
                assert(s[1] == v@);
                assert(s.skip(2) =~= dv.skip(i + 2));
                match parse_color_value(v) {
                    None => {
                        return Err(ArgError::InvalidColor(v.to_owned()));
                    },
                    Some(c) => {
                        if first.is_none() {
                            first = Some(c);
                        }
                        i = i + 2;
                    },
                }
            },
            FlagToken::Joined => {
                let v = value_after(tok, 7);
                match parse_color_value(v.as_str()) {
                    None => {
                        return Err(ArgError::InvalidColor(v));
                    },
                    Some(c) => {
                        if first.is_none() {
                            first = Some(c);
                        }
                        i = i + 1;
                    },
                }
            },
            FlagToken::Other => {
                let ghost before = rest.deep_view();
                rest.push(args[i].clone());
                assert(rest.deep_view() =~= before + seq![tok@]);
                proof {
                    match color_scan(dv.skip(i + 1)) {
                        Ok((r2, _)) => {
                            assert(before + seq![tok@] + r2 =~= before + (seq![tok@] + r2));
                        },
                        Err(_) => {},
                    }
                }
                i = i + 1;
            },
        }
    }
    assert(dv.skip(n as int) =~= Seq::<Seq<char>>::empty());
    assert(rest.deep_view() + Seq::<Seq<char>>::empty() =~= rest.deep_view());
    let setting = match first {
        Some(c) => c,
        None => match env_color {
            None => ColorSetting::Auto,
            Some(e) => match parse_color_value(e) {
                Some(c) => c,
                None => {
                    return Err(ArgError::InvalidColorEnv(e.to_owned()));
                },
            },
        },
    };
    *args = rest;
    Ok(setting)
}

/// Whether an argument list names a display mode, or what is wrong with the
/// display modes that it names: each must be `inline`.
pub open spec fn display_scan(args: Seq<Seq<char>>) -> Result<bool, ArgFault>
    decreases args.len(),
{
    if args.len() == 0 {
        Ok(false)
    } else {
        let t = args[0];
        match flag_token_of(t, display_flag()) {
            FlagToken::Separate => if args.len() < 2 {
                Err(ArgFault::MissingValue(display_flag()))
            } else if args[1] != inline_word() {
                Err(ArgFault::UnsupportedDisplay(args[1]))
            } else {
                match display_scan(args.skip(2)) {
                    Err(e) => Err(e),
                    Ok(_) => Ok(true),
                }
            },
            FlagToken::Joined => if joined_value(t, display_flag()) != inline_word() {
                Err(ArgFault::UnsupportedDisplay(joined_value(t, display_flag())))
            } else {
                match display_scan(args.drop_first()) {
                    Err(e) => Err(e),
                    Ok(_) => Ok(true),
                }
            },
            FlagToken::Other => display_scan(args.drop_first()),
        }
    }
}

pub open spec fn join_display(seen: bool, later: Result<bool, ArgFault>) -> Result<bool, ArgFault> {
    match later {
        Err(e) => Err(e),
        Ok(p) => Ok(seen || p),
    }
}

/// The arguments handed to the diff tool: `--color=always`, then
/// `--display=inline` where no display mode is given, then `args`.
pub open spec fn forwarded(args: Seq<Seq<char>>) -> Result<Seq<Seq<char>>, ArgFault> {
    match display_scan(args) {
        Err(e) => Err(e),
        Ok(true) => Ok(seq![forced_color()] + args),
        Ok(false) => Ok(seq![forced_color(), default_display()] + args),
    }
}

/// The whole normalization: the forwarded arguments and the color policy.
pub open spec fn normalized(args: Seq<Seq<char>>, env: Option<Seq<char>>) -> Result<
    (Seq<Seq<char>>, ColorSetting),
    ArgFault,
> {
    match color_policy(args, env) {
        Err(e) => Err(e),
        Ok((rest, c)) => match forwarded(rest) {
            Err(e) => Err(e),
            Ok(f) => Ok((f, c)),
        },
    }
}

/// Checks that every display mode in `args` is `inline`, puts
/// `--display=inline` in front where none is given, and `--color=always`
/// in front of all. On an error `args` is left as it was.
pub fn validate_and_add_flags(args: &mut Vec<String>) -> (r: Result<(), ArgError>)
    ensures
        match forwarded(old(args).deep_view()) {
            Ok(f) => r is Ok && final(args).deep_view() == f,
            Err(e) => r is Err && r->Err_0@ == e && *final(args) == *old(args),
        },
{
    proof {
        reveal_strlit("--display");
        reveal_strlit("inline");
        reveal_strlit("--display=inline");
        reveal_strlit("--color=always");
        assert("--display"@ =~= display_flag());
        assert("inline"@ =~= inline_word());
        assert("--display=inline"@ =~= default_display());
        assert("--color=always"@ =~= forced_color());
    }
    let ghost dv = args.deep_view();
    let n = args.len();
    let mut present = false;
    let mut i: usize = 0;
    proof {
        assert(dv.skip(0) =~= dv);
    }
    while i < n
        invariant
            i <= n == args@.len() == dv.len(),
            dv == args.deep_view(),
            *args == *old(args),
            "--display"@ == display_flag(),
            "inline"@ == inline_word(),
            display_scan(dv) == join_display(present, display_scan(dv.skip(i as int))),
        decreases n - i,
    {
        let tok = args[i].as_str();
        let ghost s = dv.skip(i as int);
        assert(s[0] == tok@);
        assert(s.drop_first() =~= dv.skip(i + 1));
        match flag_token(tok, "--display") {
            FlagToken::Separate => {
                if i + 1 >= n {
                    return Err(ArgError::MissingValue("--display".to_owned()));
                }
                let v = args[i + 1].as_str();
                assert(s[1] == v@);
                assert(s.skip(2) =~= dv.skip(i + 2));
                if !same_text(v, "inline") {
                    return Err(ArgError::UnsupportedDisplay(v.to_owned()));
                }
                present = true;
                i = i + 2;
            },
            FlagToken::Joined => {
                let v = value_after(tok, 9);
                if !same_text(v.as_str(), "inline") {
                    return Err(ArgError::UnsupportedDisplay(v));
                }
                present = true;
                i = i + 1;
            },
            FlagToken::Other => {
                i = i + 1;
            },
        }
    }
    assert(dv.skip(n as int) =~= Seq::<Seq<char>>::empty());
    if !present {
        args.insert(0, "--display=inline".to_owned());
    }
    args.insert(0, "--color=always".to_owned());
    if present {
        assert(args.deep_view() =~= seq![forced_color()] + dv);
    } else {
        assert(args.deep_view() =~= seq![forced_color(), default_display()] + dv);
    }
    Ok(())
}

/// The arguments to hand to the diff tool, and the filter's own color
/// policy, from the arguments that the filter was given and the value of the
/// environment override, if it is set.
pub fn normalize_args(args: Vec<String>, env_color: Option<&str>) -> (r: Result<
    (Vec<String>, ColorSetting),
    ArgError,
>)
    ensures
        match normalized(args.deep_view(), opt_view(env_color)) {
            Ok((f, c)) => r is Ok && r->Ok_0.0.deep_view() == f && r->Ok_0.1 == c,
            Err(e) => r is Err && r->Err_0@ == e,
        },
{
    let mut a = args;
    let setting = match parse_color_setting(&mut a, env_color) {
        Ok(c) => c,
        Err(e) => {
            return Err(e);
        },
    };
    match validate_and_add_flags(&mut a) {
        Ok(()) => Ok((a, setting)),
        Err(e) => Err(e),
    }
}

/// What the `--color` scan leaves holds no `--color` flag.
proof fn lemma_color_scan_rest(args: Seq<Seq<char>>)
    requires
        color_scan(args) is Ok,
    ensures
        color_scan(color_scan(args)->Ok_0.0) == Ok::<
            (Seq<Seq<char>>, Option<ColorSetting>),
            ArgFault,
        >((color_scan(args)->Ok_0.0, None)),
    decreases args.len(),
{
    if args.len() > 0 {
        let t = args[0];
        match flag_token_of(t, color_flag()) {
            FlagToken::Separate => {
                lemma_color_scan_rest(args.skip(2));
            },
            FlagToken::Joined => {
                lemma_color_scan_rest(args.drop_first());
            },
            FlagToken::Other => {
                lemma_color_scan_rest(args.drop_first());
                let r = color_scan(args.drop_first())->Ok_0.0;
                let rest = seq![t] + r;
                assert(rest[0] == t);
                assert(rest.drop_first() =~= r);
            },
        }
    }
}

proof fn lemma_default_display_token()
    ensures
        flag_token_of(default_display(), display_flag()) == FlagToken::Joined,
        joined_value(default_display(), display_flag()) == inline_word(),
        flag_token_of(default_display(), color_flag()) == FlagToken::Other,
        flag_token_of(forced_color(), color_flag()) == FlagToken::Joined,
        color_setting_of(joined_value(forced_color(), color_flag())) == Some(ColorSetting::Always),
{
    assert(default_display().take(9) =~= display_flag());
    assert(joined_value(default_display(), display_flag()) =~= inline_word());
    assert(default_display().take(7)[2] != color_flag()[2]);
    assert(default_display() != color_flag());
    assert(forced_color().take(7) =~= color_flag());
    assert(forced_color() != color_flag());
    assert(joined_value(forced_color(), color_flag()) =~= always_word());
}

/// Normalization is idempotent: run again on the arguments that it forwards,
/// it finds their display mode already given and puts nothing more in
/// front, so the same arguments come out (with the policy `Always` that
/// their `--color=always` names).
pub proof fn lemma_normalize_idempotent(args: Seq<Seq<char>>, env: Option<Seq<char>>)
    requires
        normalized(args, env) is Ok,
    ensures
        normalized(normalized(args, env)->Ok_0.0, env) == Ok::<
            (Seq<Seq<char>>, ColorSetting),
            ArgFault,
        >((normalized(args, env)->Ok_0.0, ColorSetting::Always)),
{
    let rest = color_scan(args)->Ok_0.0;
    let out = normalized(args, env)->Ok_0.0;
    lemma_color_scan_rest(args);
    lemma_default_display_token();
    let tail = out.drop_first();
    assert(out[0] == forced_color());
    if display_scan(rest) == Ok::<bool, ArgFault>(true) {
        assert(tail =~= rest);
    } else {
        assert(tail =~= seq![default_display()] + rest);
        assert(tail[0] == default_display());
        assert(tail.drop_first() =~= rest);
        assert(color_scan(tail) == Ok::<(Seq<Seq<char>>, Option<ColorSetting>), ArgFault>(
            (seq![tail[0]] + rest, None),
        ));
        assert(seq![tail[0]] + rest =~= tail);
    }
    assert(display_scan(tail) == Ok::<bool, ArgFault>(true));
    assert(color_scan(tail) == Ok::<(Seq<Seq<char>>, Option<ColorSetting>), ArgFault>(
        (tail, None),
    ));
    assert(out.drop_first() == tail);
    assert(color_scan(out) == Ok::<(Seq<Seq<char>>, Option<ColorSetting>), ArgFault>(
        (tail, Some(ColorSetting::Always)),
    ));
    assert(color_policy(out, env) == Ok::<(Seq<Seq<char>>, ColorSetting), ArgFault>(
        (tail, ColorSetting::Always),
    ));
    assert(seq![forced_color()] + tail =~= out);
}

} // verus!
