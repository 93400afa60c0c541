use vstd::prelude::*;
use vstd::string::StringExecFns;

use crate::toks::{is_punct, lex, lex_of, toks_text, toks_text_range, toks_v, Tok, TokV};

verus! {

/// A visibility written in the configuration or on a field declaration:
/// nothing, `pub`, or `pub(path)` with the path kept as text.
pub enum VisV {
    Inherited,
    Public,
    Restricted(Seq<char>),
}

#[derive(Debug)]
pub enum Vis {
    Inherited,
    Public,
    Restricted(String),
}

impl Vis {
    pub open spec fn v(self) -> VisV {
        match self {
            Vis::Inherited => VisV::Inherited,
            Vis::Public => VisV::Public,
            Vis::Restricted(p) => VisV::Restricted(p@),
        }
    }
}

/// One constructor parameter of the configuration: `[vis] name : type`.
/// A parameter with a visibility is also kept as a member of the
/// synthesized type, initialized from the like-named argument.
pub struct ArgumentV {
    pub vis: Option<VisV>,
    pub name: Seq<char>,
    pub ty: Seq<char>,
}

#[derive(Debug)]
pub struct Argument {
    pub vis: Option<Vis>,
    pub name: String,
    pub ty: String,
}

impl Argument {
    pub open spec fn v(self) -> ArgumentV {
        ArgumentV {
            vis: match self.vis {
                Some(v) => Some(v.v()),
                None => None,
            },
            name: self.name@,
            ty: self.ty@,
        }
    }
}

pub open spec fn args_v(s: Seq<Argument>) -> Seq<ArgumentV> {
    s.map_values(|a: Argument| a.v())
}

/// The constructor parameter list of the configuration.
#[derive(Debug)]
pub struct NewArgs {
    pub args: Vec<Argument>,
}

impl NewArgs {
    pub open spec fn v(self) -> Seq<ArgumentV> {
        args_v(self.args@)
    }
}

/// The parsed configuration: the synthesized type's visibility and the
/// constructor parameter list.
pub struct AttrV {
    pub vis: VisV,
    pub new_args: Seq<ArgumentV>,
}

#[derive(Debug)]
pub struct Attr {
    pub vis: Vis,
    pub new_args: NewArgs,
}

impl Attr {
    pub open spec fn v(self) -> AttrV {
        AttrV { vis: self.vis.v(), new_args: self.new_args.v() }
    }
}

/// The grammar errors. They abort the whole transformation, except where a
/// field declaration embeds them as a compile-time failure.
#[derive(Clone, Copy, Debug, PartialEq, Eq, Structural)]
pub enum ParseErr {
    /// The argument text does not lex.
    NoLex,
    /// A parameter name must be one plain identifier.
    ExpectedIdent,
    /// A parameter name must be followed by `:`.
    ExpectedColon,
    /// A `:` must be followed by a type.
    ExpectedType,
    /// A field declaration needs `=` after its type.
    ExpectedEq,
    /// A field declaration needs an initializer expression after `=`.
    ExpectedExpr,
}

/// A visibility at position `i`: `pub` alone or `pub( ... )`, with the index
/// just after it.
pub open spec fn vis_at(ts: Seq<TokV>, i: int) -> Option<(VisV, int)> {
    if 0 <= i < ts.len() && ts[i] == TokV::Ident("pub"@) {
        if i + 1 < ts.len() && ts[i + 1] matches TokV::Group('(', _) {
            Some((VisV::Restricted(ts[i + 1]->Group_1), i + 2))
        } else {
            Some((VisV::Public, i + 1))
        }
    } else {
        None
    }
}

/// The first position at or after `i` holding the punctuation `end` outside
/// any angle brackets, or the length where there is none. A `>` right after
/// a `-` is an arrow and does not close an angle bracket.
pub open spec fn scan_end(ts: Seq<TokV>, i: int, depth: int, prev_minus: bool, end: char) -> int
    decreases ts.len() - i,
{
    if i < 0 || i >= ts.len() {
        ts.len() as int
    } else {
        match ts[i] {
            TokV::Punct(c, _) => if c == end && depth == 0 {
                i
            } else if c == '<' {
                scan_end(ts, i + 1, depth + 1, false, end)
            } else if c == '>' && !prev_minus && depth > 0 {
                scan_end(ts, i + 1, depth - 1, false, end)
            } else if c == '-' {
                scan_end(ts, i + 1, depth, true, end)
            } else {
                scan_end(ts, i + 1, depth, false, end)
            },
            _ => scan_end(ts, i + 1, depth, false, end),
        }
    }
}

pub proof fn lemma_scan_end(ts: Seq<TokV>, i: int, depth: int, prev_minus: bool, end: char)
    requires
        0 <= i <= ts.len(),
    ensures
        i <= scan_end(ts, i, depth, prev_minus, end) <= ts.len(),
        scan_end(ts, i, depth, prev_minus, end) < ts.len() ==> is_punct(
            ts[scan_end(ts, i, depth, prev_minus, end)],
            end,
        ),
    decreases ts.len() - i,
{
    if i < ts.len() {
        match ts[i] {
            TokV::Punct(c, _) => if c == end && depth == 0 {
            } else if c == '<' {
                lemma_scan_end(ts, i + 1, depth + 1, false, end);
            } else if c == '>' && !prev_minus && depth > 0 {
                lemma_scan_end(ts, i + 1, depth - 1, false, end);
            } else if c == '-' {
                lemma_scan_end(ts, i + 1, depth, true, end);
            } else {
                lemma_scan_end(ts, i + 1, depth, false, end);
            },
            _ => lemma_scan_end(ts, i + 1, depth, false, end),
        }
    }
}

/// One constructor parameter at position `i`: `[vis] name : type`, the type
/// running to the next comma outside angle brackets. On success, the
/// position returned holds that comma or is the end.
pub open spec fn spec_parse_arg(ts: Seq<TokV>, i: int) -> Result<(ArgumentV, int), ParseErr> {
    let (v, j) = match vis_at(ts, i) {
        Some((v, j)) => (Some(v), j),
        None => (None, i),
    };
    if j >= ts.len() || !(ts[j] is Ident) {
        Err(ParseErr::ExpectedIdent)
    } else if j + 1 >= ts.len() || !is_punct(ts[j + 1], ':') {
        Err(ParseErr::ExpectedColon)
    } else {
        let k = scan_end(ts, j + 2, 0, false, ',');
        if k == j + 2 {
            Err(ParseErr::ExpectedType)
        } else {
            Ok((ArgumentV { vis: v, name: ts[j]->Ident_0, ty: toks_text(ts.subrange(j + 2, k)) }, k))
        }
    }
}

pub proof fn lemma_parse_arg_bounds(ts: Seq<TokV>, i: int)
    requires
        0 <= i <= ts.len(),
    ensures
        spec_parse_arg(ts, i) matches Ok((a, k)) ==> i < k <= ts.len() && (k < ts.len()
            ==> is_punct(ts[k], ',')),
{
    let j = match vis_at(ts, i) {
        Some((v, j)) => j,
        None => i,
    };
    if j + 1 < ts.len() && is_punct(ts[j + 1], ':') && ts[j] is Ident {
        lemma_scan_end(ts, j + 2, 0, false, ',');
    }
}

/// The comma-separated constructor parameters from position `i` to the end.
/// A trailing comma is allowed.
pub open spec fn spec_parse_args(ts: Seq<TokV>, i: int) -> Result<Seq<ArgumentV>, ParseErr>
    decreases ts.len() - i,
    via spec_parse_args_dec
{
    if i < 0 || i >= ts.len() {
        Ok(Seq::empty())
    } else {
        match spec_parse_arg(ts, i) {
            Err(e) => Err(e),
            Ok((a, k)) => if k >= ts.len() {
                Ok(seq![a])
            } else {
                match spec_parse_args(ts, k + 1) {
                    Err(e) => Err(e),
                    Ok(rest) => Ok(seq![a] + rest),
                }
            },
        }
    }
}

#[via_fn]
proof fn spec_parse_args_dec(ts: Seq<TokV>, i: int) {
    if 0 <= i < ts.len() {
        lemma_parse_arg_bounds(ts, i);
    }
}

/// The whole configuration: an optional leading visibility for the
/// synthesized type, set off by a comma (or alone), then the constructor
/// parameters. An empty argument list is valid.
pub open spec fn spec_parse_attr(ts: Seq<TokV>) -> Result<AttrV, ParseErr> {
    match vis_at(ts, 0) {
        Some((v, j)) => if j >= ts.len() {
            Ok(AttrV { vis: v, new_args: Seq::empty() })
        } else if is_punct(ts[j], ',') {
            match spec_parse_args(ts, j + 1) {
                Ok(args) => Ok(AttrV { vis: v, new_args: args }),
                Err(e) => Err(e),
            }
        } else {
            // The visibility belongs to the first parameter.
            match spec_parse_args(ts, 0) {
                Ok(args) => Ok(AttrV { vis: VisV::Inherited, new_args: args }),
                Err(e) => Err(e),
            }
        },
        None => match spec_parse_args(ts, 0) {
            Ok(args) => Ok(AttrV { vis: VisV::Inherited, new_args: args }),
            Err(e) => Err(e),
        },
    }
}

fn is_ident_word(t: &Tok, w: &str) -> (r: bool)
    ensures
        r == (t.v() == TokV::Ident(w@)),
{
    match t {
        Tok::Ident(s) => {
            let ww = w.to_owned();
            *s == ww
        },
        _ => false,
    }
}

/// A visibility at position `i` of the token list, with the index after it.
pub fn parse_vis_exec(ts: &Vec<Tok>, i: usize) -> (r: Option<(Vis, usize)>)
    requires
        i <= ts@.len(),
    ensures
        match r {
            Some((v, j)) => vis_at(toks_v(ts@), i as int) == Some((v.v(), j as int)) && i < j
                <= ts@.len(),
            None => vis_at(toks_v(ts@), i as int) is None,
        },
{
    if i < ts.len() && is_ident_word(&ts[i], "pub") {
        if i + 1 < ts.len() {
            let group: Option<String> = match &ts[i + 1] {
                Tok::Group(d, s) => if *d == '(' {
                    Some(s.clone())
                } else {
                    None
                },
                _ => None,
            };
            match group {
                Some(p) => Some((Vis::Restricted(p), i + 2)),
                None => Some((Vis::Public, i + 1)),
            }
        } else {
            Some((Vis::Public, i + 1))
        }
    } else {
        None
    }
}

pub fn scan_end_exec(ts: &Vec<Tok>, i: usize, end: char) -> (r: usize)
    requires
        i <= ts@.len(),
    ensures
        r == scan_end(toks_v(ts@), i as int, 0, false, end),
        i <= r <= ts@.len(),
{
    proof {
        lemma_scan_end(toks_v(ts@), i as int, 0, false, end);
    }
    let mut j = i;
    let mut depth: usize = 0;
    let mut prev_minus = false;
    loop
        invariant
            i <= j <= ts@.len(),
            depth <= j,
            scan_end(toks_v(ts@), i as int, 0, false, end) == scan_end(
                toks_v(ts@),
                j as int,
                depth as int,
                prev_minus,
                end,
            ),
        decreases ts@.len() - j,
    {
        if j >= ts.len() {
            return ts.len();
        }
        let (is_p, c): (bool, char) = match &ts[j] {
            Tok::Punct(c, _) => (true, *c),
            _ => (false, ' '),
        };
        if is_p && c == end && depth == 0 {
            return j;
        }
        if is_p && c == '<' {
            depth = depth + 1;
            prev_minus = false;
        } else if is_p && c == '>' && !prev_minus && depth > 0 {
            depth = depth - 1;
            prev_minus = false;
        } else if is_p && c == '-' {
            prev_minus = true;
        } else {
            prev_minus = false;
        }
        j = j + 1;
    }
}

/// One constructor parameter at position `i` of the token list.
fn parse_arg_exec(ts: &Vec<Tok>, i: usize) -> (r: Result<(Argument, usize), ParseErr>)
    requires
        i <= ts@.len(),
    ensures
        match r {
            Ok((a, k)) => spec_parse_arg(toks_v(ts@), i as int) == Ok::<_, ParseErr>(
                (a.v(), k as int),
            ) && i < k <= ts@.len(),
            Err(e) => spec_parse_arg(toks_v(ts@), i as int) == Err::<(ArgumentV, int), _>(e),
        },
{
    proof {
        lemma_parse_arg_bounds(toks_v(ts@), i as int);
        assert(forall|x: int| 0 <= x < ts@.len() ==> toks_v(ts@)[x] == ts@[x].v());
    }
    let (vis, j): (Option<Vis>, usize) = match parse_vis_exec(ts, i) {
        Some((v, j)) => (Some(v), j),
        None => (None, i),
    };
    if j >= ts.len() {
        return Err(ParseErr::ExpectedIdent);
    }
    let name: String = match &ts[j] {
        Tok::Ident(s) => s.clone(),
        _ => {
            return Err(ParseErr::ExpectedIdent);
        },
    };
    let colon: bool = if j + 1 >= ts.len() {
        false
    } else {
        match &ts[j + 1] {
            Tok::Punct(c, _) => *c == ':',
            _ => false,
        }
    };
    if !colon {
        return Err(ParseErr::ExpectedColon);
    }
    let k = scan_end_exec(ts, j + 2, ',');
    if k == j + 2 {
        return Err(ParseErr::ExpectedType);
    }
    let ty = toks_text_range(ts, j + 2, k);
    proof {
        assert(toks_v(ts@.subrange(j + 2, k as int)) =~= toks_v(ts@).subrange(j + 2, k as int));
    }
    Ok((Argument { vis, name, ty }, k))
}

/// The comma-separated constructor parameters from position `i` to the end.
fn parse_args_exec(ts: &Vec<Tok>, i: usize) -> (r: Result<NewArgs, ParseErr>)
    requires
        i <= ts@.len(),
    ensures
        match r {
            Ok(args) => spec_parse_args(toks_v(ts@), i as int) == Ok::<_, ParseErr>(args.v()),
            Err(e) => spec_parse_args(toks_v(ts@), i as int) == Err::<Seq<ArgumentV>, _>(e),
        },
{
    let ghost tsv = toks_v(ts@);
    let mut acc: Vec<Argument> = Vec::new();
    let mut cur = i;
    loop
        invariant
            i <= cur <= ts@.len(),
            tsv == toks_v(ts@),
            spec_parse_args(tsv, i as int) == (match spec_parse_args(tsv, cur as int) {
                Ok(s) => Ok::<Seq<ArgumentV>, ParseErr>(args_v(acc@) + s),
                Err(e) => Err(e),
            }),
        decreases ts@.len() - cur,
    {
        if cur >= ts.len() {
            proof {
                assert(spec_parse_args(tsv, cur as int) == Ok::<Seq<ArgumentV>, ParseErr>(
                    Seq::empty(),
                ));
                assert(args_v(acc@) + Seq::<ArgumentV>::empty() =~= args_v(acc@));
            }
            return Ok(NewArgs { args: acc });
        }
        match parse_arg_exec(ts, cur) {
            Err(e) => {
                return Err(e);
            },
            Ok((a, k)) => {
                let ghost old_acc = acc@;
                acc.push(a);
                proof {
                    assert(args_v(acc@) =~= args_v(old_acc).push(a.v()));
                }
                if k >= ts.len() {
                    proof {
                        assert(spec_parse_args(tsv, cur as int) == Ok::<Seq<ArgumentV>, ParseErr>(
                            seq![a.v()],
                        ));
                        assert(args_v(old_acc) + seq![a.v()] =~= args_v(acc@));
                    }
                    return Ok(NewArgs { args: acc });
                }
                proof {
                    match spec_parse_args(tsv, k + 1) {
                        Ok(s) => {
                            assert(spec_parse_args(tsv, cur as int) == Ok::<
                                Seq<ArgumentV>,
                                ParseErr,
                            >(seq![a.v()] + s));
                            assert(args_v(old_acc) + (seq![a.v()] + s) =~= args_v(acc@) + s);
                        },
                        Err(_) => {},
                    }
                }
                cur = k + 1;
            },
        }
    }
}

pub open spec fn attr_res_v(r: Result<Attr, ParseErr>) -> Result<AttrV, ParseErr> {
    match r {
        Ok(a) => Ok(a.v()),
        Err(e) => Err(e),
    }
}

/// The configuration parsed from a token list.
pub fn parse_attr_toks(ts: &Vec<Tok>) -> (r: Result<Attr, ParseErr>)
    ensures
        attr_res_v(r) == spec_parse_attr(toks_v(ts@)),
{
    match parse_vis_exec(ts, 0) {
        Some((v, j)) => {
            if j >= ts.len() {
                proof {
                    assert(args_v(Seq::<Argument>::empty()) =~= Seq::<ArgumentV>::empty());
                }
                return Ok(Attr { vis: v, new_args: NewArgs { args: Vec::new() } });
            }
            let comma: bool = match &ts[j] {
                Tok::Punct(c, _) => *c == ',',
                _ => false,
            };
            if comma {
                match parse_args_exec(ts, j + 1) {
                    Ok(args) => Ok(Attr { vis: v, new_args: args }),
                    Err(e) => Err(e),
                }
            } else {
                match parse_args_exec(ts, 0) {
                    Ok(args) => Ok(Attr { vis: Vis::Inherited, new_args: args }),
                    Err(e) => Err(e),
                }
            }
        },
        None => {
            match parse_args_exec(ts, 0) {
                Ok(args) => Ok(Attr { vis: Vis::Inherited, new_args: args }),
                Err(e) => Err(e),
            }
        },
    }
}

/// The configuration parsed from the attribute argument text. The text is
/// lexed by the trusted lexer; the grammar itself is parsed by verified
/// code.
pub fn parse_attr_src(src: &str) -> (r: Result<Attr, ParseErr>)
    ensures
        match lex_of(src@) {
            Some(ts) => attr_res_v(r) == spec_parse_attr(ts),
            None => attr_res_v(r) == Err::<AttrV, ParseErr>(ParseErr::NoLex),
        },
{
    match lex(src) {
        Some(v) => parse_attr_toks(&v),
        None => Err(ParseErr::NoLex),
    }
}

} // verus!
