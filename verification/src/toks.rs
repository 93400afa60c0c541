use vstd::prelude::*;
use vstd::string::StringExecFns;

verus! {

/// One lexical token as the configuration and field-declaration grammars see
/// it, at the specification level. A group keeps only its opening delimiter
/// and the text of its content: the grammars never look inside a group.
pub enum TokV {
    /// A punctuation character; the flag says whether the next token follows
    /// it immediately, as in the second half of `->` or `::`.
    Punct(char, bool),
    Ident(Seq<char>),
    Lit(Seq<char>),
    Group(char, Seq<char>),
}

/// One executable lexical token. `Punct` carries its character and whether
/// the next token joins it without a space; `Group` carries the opening
/// delimiter (`'('`, `'['`, `'{'`, or `' '` for an invisible delimiter) and
/// the text of its content.
pub enum Tok {
    Punct(char, bool),
    Ident(String),
    Lit(String),
    Group(char, String),
}

impl Tok {
    pub open spec fn v(self) -> TokV {
        match self {
            Tok::Ident(s) => TokV::Ident(s@),
            Tok::Punct(c, j) => TokV::Punct(c, j),
            Tok::Lit(s) => TokV::Lit(s@),
            Tok::Group(d, s) => TokV::Group(d, s@),
        }
    }
}

pub open spec fn is_punct(t: TokV, c: char) -> bool {
    match t {
        TokV::Punct(cc, _) => cc == c,
        _ => false,
    }
}

/// Whether the next token follows this one with no space in between.
pub open spec fn joint_after(t: TokV) -> bool {
    match t {
        TokV::Punct(_, j) => j,
        _ => false,
    }
}

pub open spec fn toks_v(ts: Seq<Tok>) -> Seq<TokV> {
    ts.map_values(|t: Tok| t.v())
}

pub open spec fn close_of(open: char) -> char {
    if open == '(' {
        ')'
    } else if open == '[' {
        ']'
    } else if open == '{' {
        '}'
    } else {
        ' '
    }
}

/// The text of one token, as the renderers write it back out.
pub open spec fn tok_text(t: TokV) -> Seq<char> {
    match t {
        TokV::Ident(s) => s,
        TokV::Punct(c, _) => seq![c],
        TokV::Lit(s) => s,
        TokV::Group(d, s) => if d == ' ' {
            s
        } else {
            seq![d] + s + seq![close_of(d)]
        },
    }
}

/// The text of a token sequence: the tokens' texts joined by single spaces,
/// except after a joint punctuation, whose neighbour follows immediately.
pub open spec fn toks_text(ts: Seq<TokV>) -> Seq<char>
    decreases ts.len(),
{
    if ts.len() == 0 {
        Seq::empty()
    } else if ts.len() == 1 {
        tok_text(ts[0])
    } else {
        toks_text(ts.drop_last()) + (if joint_after(ts[ts.len() - 2]) {
            Seq::empty()
        } else {
            seq![' ']
        }) + tok_text(ts.last())
    }
}

/// The token sequence that a piece of source text lexes to, or nothing where
/// the text does not lex. Only the trusted lexer below says anything about
/// this name.
pub uninterp spec fn lex_of(s: Seq<char>) -> Option<Seq<TokV>>;

/// Relies on proc_macro2's lexer, `str::parse::<proc_macro2::TokenStream>`:
/// the token stream is a function of the source text alone, and an error is
/// reported exactly where the text does not lex. The loop only converts each
/// returned token tree into the library's token type, one variant per arm.
#[verifier::external_body]
pub fn lex(src: &str) -> (r: Option<Vec<Tok>>)
    ensures
        match r {
            Some(v) => lex_of(src@) == Some(toks_v(v@)),
            None => lex_of(src@) is None,
        },
{
    let ts: proc_macro2::TokenStream = match src.parse() { Ok(t) => t, Err(_) => return None };
    let mut v = Vec::new();
    for tt in ts {
        v.push(match tt {
            proc_macro2::TokenTree::Ident(i) => Tok::Ident(i.to_string()),
            proc_macro2::TokenTree::Punct(p) => Tok::Punct(p.as_char(), p.spacing() == proc_macro2::Spacing::Joint),
            proc_macro2::TokenTree::Literal(l) => Tok::Lit(l.to_string()),
            proc_macro2::TokenTree::Group(g) => Tok::Group(match g.delimiter() {
                proc_macro2::Delimiter::Parenthesis => '(', proc_macro2::Delimiter::Brace => '{',
                proc_macro2::Delimiter::Bracket => '[', proc_macro2::Delimiter::None => ' ',
            }, g.stream().to_string()),
        });
    }
    Some(v)
}

/// Relies on char's `Display` implementation: the text of a char is that one
/// char.
#[verifier::external_body]
fn char_to_string(c: char) -> (r: String)
    ensures
        r@ == seq![c],
{
    c.to_string()
}

fn close_of_exec(open: char) -> (r: char)
    ensures
        r == close_of(open),
{
    if open == '(' {
        ')'
    } else if open == '[' {
        ']'
    } else if open == '{' {
        '}'
    } else {
        ' '
    }
}

pub fn tok_text_exec(t: &Tok) -> (r: String)
    ensures
        r@ == tok_text(t.v()),
{
    match t {
        Tok::Ident(s) => s.clone(),
        Tok::Punct(c, _) => char_to_string(*c),
        Tok::Lit(s) => s.clone(),
        Tok::Group(d, s) => {
            if *d == ' ' {
                s.clone()
            } else {
                let mut r = char_to_string(*d);
                r.append(s.as_str());
                let close = char_to_string(close_of_exec(*d));
                r.append(close.as_str());
                r
            }
        },
    }
}

/// The text of `ts[from..to]`, the tokens' texts joined by single spaces.
pub fn toks_text_range(ts: &Vec<Tok>, from: usize, to: usize) -> (r: String)
    requires
        from <= to <= ts@.len(),
    ensures
        r@ == toks_text(toks_v(ts@.subrange(from as int, to as int))),
{
    let mut r = String::new();
    let mut i = from;
    while i < to
        invariant
            from <= i <= to <= ts@.len(),
            r@ == toks_text(toks_v(ts@.subrange(from as int, i as int))),
        decreases to - i,
    {
        if i > from {
            let joint = match &ts[i - 1] {
                Tok::Punct(_, j) => *j,
                _ => false,
            };
            if !joint {
                r.append(" ");
            }
        }
        let t = tok_text_exec(&ts[i]);
        r.append(t.as_str());
        proof {
            reveal_strlit(" ");
            let s1 = toks_v(ts@.subrange(from as int, i as int));
            let s2 = toks_v(ts@.subrange(from as int, i + 1 as int));
            assert(s2.drop_last() =~= s1);
            assert(s2.last() == ts@[i as int].v());
            if i == from {
                assert(toks_text(s2) == tok_text(ts@[i as int].v()));
            } else {
                assert(" "@ =~= seq![' ']);
                assert(s2[s2.len() - 2] == ts@[i - 1 as int].v());
                if joint_after(ts@[i - 1 as int].v()) {
                    assert(toks_text(s2) =~= toks_text(s1) + tok_text(ts@[i as int].v()));
                } else {
                    assert(toks_text(s2) == toks_text(s1) + seq![' '] + tok_text(
                        ts@[i as int].v(),
                    ));
                }
            }
        }
        i = i + 1;
    }
    r
}

} // verus!
