//! Parser of the netlist language.
//!
//! The parser reads the token stream of a whole netlist (see
//! `Lexer::tokenize`) and builds its syntax tree. Each rule is described by
//! a spec function over the token sequence; lexing errors surface when the
//! parser reaches the place where the first one occurred, as they would if
//! the tokens were read one by one.

use vstd::prelude::*;
use crate::ast::{
    eq_ascii_ci, eq_ignore_ascii_case, has_prefix, keyword_type, model_type_of, node_count,
    prefix_type, starts_with, ComponentType, ModelType,
};
use crate::circuit::same_text;
use crate::error::DslError;
use crate::lexer::{is_stream_of, Lexer, Token, TokenKind};
use crate::value::{is_value, is_value_text};

verus! {

/// How a line's leading word introduces a component: its kind, and whether
/// the component's name is the next word (keyword forms such as
/// `DELAY D1 ...`) or the leading word itself (`R1 ...`).
#[derive(Debug, Clone, Copy, PartialEq, Eq, Structural)]
pub struct ComponentHeader {
    pub component_type: ComponentType,
    pub name_follows: bool,
}

/// The header a leading word `w` gives, where `upper` is `w` upper-cased:
/// keywords first, then the multi-letter prefixes of `upper`, then the kind
/// named by the first character.
pub open spec fn header_rule(w: Seq<char>, upper: Seq<char>) -> Option<ComponentHeader> {
    if keyword_type(w) is Some {
        Some(ComponentHeader { component_type: keyword_type(w)->Some_0, name_follows: true })
    } else if has_prefix(upper, "OP"@) {
        Some(ComponentHeader { component_type: ComponentType::OpAmp, name_follows: false })
    } else if has_prefix(upper, "POT"@) {
        Some(ComponentHeader { component_type: ComponentType::Potentiometer, name_follows: false })
    } else if has_prefix(upper, "SW"@) {
        Some(ComponentHeader { component_type: ComponentType::Switch, name_follows: false })
    } else if has_prefix(upper, "DELAY"@) {
        Some(ComponentHeader { component_type: ComponentType::Delay, name_follows: true })
    } else if has_prefix(upper, "REV"@) {
        Some(ComponentHeader { component_type: ComponentType::Reverb, name_follows: true })
    } else if w.len() > 0 && prefix_type(w[0]) is Some {
        Some(ComponentHeader { component_type: prefix_type(w[0])->Some_0, name_follows: false })
    } else {
        None
    }
}

/// What `str::to_uppercase` returns for a string (Unicode case mapping).
pub uninterp spec fn uppercase(s: Seq<char>) -> Seq<char>;

/// Relies on `str::to_uppercase`: the Unicode upper-case mapping of `s`,
/// which depends on the characters alone.
#[verifier::external_body]
fn to_uppercase(s: &str) -> (r: String)
    ensures
        r@ == uppercase(s@),
{
    s.to_uppercase()
}

/// The header that leading word `word` gives, with `upper` its upper-case
/// form.
pub fn classify_header(word: &str, upper: &str) -> (r: Option<ComponentHeader>)
    ensures
        r == header_rule(word@, upper@),
{
    if let Some(t) = ComponentType::from_keyword(word) {
        return Some(ComponentHeader { component_type: t, name_follows: true });
    }
    if starts_with(upper, "OP") {
        Some(ComponentHeader { component_type: ComponentType::OpAmp, name_follows: false })
    } else if starts_with(upper, "POT") {
        Some(ComponentHeader { component_type: ComponentType::Potentiometer, name_follows: false })
    } else if starts_with(upper, "SW") {
        Some(ComponentHeader { component_type: ComponentType::Switch, name_follows: false })
    } else if starts_with(upper, "DELAY") {
        Some(ComponentHeader { component_type: ComponentType::Delay, name_follows: true })
    } else if starts_with(upper, "REV") {
        Some(ComponentHeader { component_type: ComponentType::Reverb, name_follows: true })
    } else if word.unicode_len() > 0 {
        match ComponentType::from_prefix(word.get_char(0)) {
            Some(t) => Some(ComponentHeader { component_type: t, name_follows: false }),
            None => None,
        }
    } else {
        None
    }
}

/// The header that a line's leading word gives, or `None` where the word
/// names no kind of component.
pub fn component_header(word: &str) -> (r: Option<ComponentHeader>)
    ensures
        r == header_rule(word@, uppercase(word@)),
{
    let upper = to_uppercase(word);
    classify_header(word, upper.as_str())
}

/// The directives of the netlist language.
#[derive(Debug, Clone, Copy, PartialEq, Eq, Structural)]
pub enum Directive {
    /// `.input <node>`: the node driven by the audio input.
    Input,
    /// `.output <node>`: the node whose voltage is emitted.
    Output,
    /// `.node <name>`: declares a node.
    Node,
    /// `.model <name> <type> (<params>)`: a named device model.
    Model,
}

/// Directive named by a token text, in any ASCII case. None of the names
/// holds a letter that a non-ASCII character lower-cases to, so ASCII case
/// folding decides as Unicode lower-casing would.
pub open spec fn directive_of(t: Seq<char>) -> Option<Directive> {
    if eq_ascii_ci(t, ".input"@) {
        Some(Directive::Input)
    } else if eq_ascii_ci(t, ".output"@) {
        Some(Directive::Output)
    } else if eq_ascii_ci(t, ".node"@) {
        Some(Directive::Node)
    } else if eq_ascii_ci(t, ".model"@) {
        Some(Directive::Model)
    } else {
        None
    }
}

impl Directive {
    /// The directive a directive token's text names, if any.
    pub fn from_text(text: &str) -> (r: Option<Directive>)
        ensures
            r == directive_of(text@),
    {
        if eq_ignore_ascii_case(text, ".input") {
            Some(Directive::Input)
        } else if eq_ignore_ascii_case(text, ".output") {
            Some(Directive::Output)
        } else if eq_ignore_ascii_case(text, ".node") {
            Some(Directive::Node)
        } else if eq_ignore_ascii_case(text, ".model") {
            Some(Directive::Model)
        } else {
            None
        }
    }
}


/// What `str::to_lowercase` returns for a string (Unicode case mapping).
pub uninterp spec fn lowercase(s: Seq<char>) -> Seq<char>;

/// Relies on `str::to_lowercase`: the Unicode lower-case mapping of `s`,
/// which depends on the characters alone.
#[verifier::external_body]
fn to_lowercase(s: &str) -> (r: String)
    ensures
        r@ == lowercase(s@),
{
    s.to_lowercase()
}

/// A copy of a token.
fn copy_token(t: &Token) -> (r: Token)
    ensures
        r == *t,
{
    Token { kind: t.kind, text: t.text.clone(), line: t.line, column: t.column }
}

/// Whether a token sequence and error can come from lexing: only the last
/// token is the end of input, and it is there exactly when no error is.
pub open spec fn stream_wf(toks: Seq<Token>, err: Option<DslError>) -> bool {
    &&& forall|k: int|
        0 <= k < toks.len() && #[trigger] toks[k].kind == TokenKind::Eof ==> k == toks.len() - 1
            && err is None
    &&& err is None ==> toks.len() >= 1 && toks[toks.len() - 1].kind == TokenKind::Eof
}

/// Kind of token `i`; past the stored tokens, the end of input.
pub open spec fn kind_at(toks: Seq<Token>, i: int) -> TokenKind {
    if 0 <= i < toks.len() {
        toks[i].kind
    } else {
        TokenKind::Eof
    }
}

/// Text of token `i`.
pub open spec fn text_at(toks: Seq<Token>, i: int) -> Seq<char> {
    toks[i].text@
}

/// The error met when the parser moves past the stored tokens.
pub open spec fn stream_error(err: Option<DslError>) -> DslError {
    err->Some_0
}

/// A parameter value: a number's text, or a bare keyword (`DC`, `AC`).
#[derive(Debug, Clone, PartialEq)]
pub enum ParamValue {
    Number(String),
    Flag,
}

/// A named parameter of a component line.
#[derive(Debug, Clone, PartialEq)]
pub struct Param {
    pub name: String,
    pub value: ParamValue,
}

/// A component line: its kind, name, node names, value and model
/// reference, and named parameters in order of appearance.
#[derive(Debug, Clone, PartialEq)]
pub struct ComponentSyntax {
    pub component_type: ComponentType,
    pub name: String,
    pub nodes: Vec<String>,
    pub value: Option<String>,
    pub model_ref: Option<String>,
    /// The oscillator that `mod=` or `lfo=` names, the last one on the line.
    pub lfo_ref: Option<String>,
    pub params: Vec<Param>,
    pub line: usize,
}

/// A parameter of a `.model` line, its name lower-cased.
#[derive(Debug, Clone, PartialEq)]
pub struct ModelParam {
    pub name: String,
    pub value: String,
}

/// A `.model` line.
#[derive(Debug, Clone, PartialEq)]
pub struct ModelSyntax {
    pub name: String,
    pub model_type: ModelType,
    pub params: Vec<ModelParam>,
    pub line: usize,
}

/// A whole netlist: components and models in order, and the input and
/// output node names that the last `.input` and `.output` set.
#[derive(Debug, Clone, PartialEq)]
pub struct NetlistSyntax {
    pub components: Vec<ComponentSyntax>,
    pub models: Vec<ModelSyntax>,
    pub input_node: Option<String>,
    pub output_node: Option<String>,
}

pub open spec fn str_views(v: Seq<String>) -> Seq<Seq<char>> {
    v.map_values(|s: String| s@)
}

pub open spec fn opt_view(o: Option<String>) -> Option<Seq<char>> {
    match o {
        Some(s) => Some(s@),
        None => None,
    }
}

pub open spec fn param_view(p: Param) -> (Seq<char>, Option<Seq<char>>) {
    (
        p.name@,
        match p.value {
            ParamValue::Number(t) => Some(t@),
            ParamValue::Flag => None,
        },
    )
}

/// The parts of a component line gathered after its name.
pub struct LineState {
    pub nodes: Seq<Seq<char>>,
    pub value: Option<Seq<char>>,
    pub model_ref: Option<Seq<char>>,
    pub lfo_ref: Option<Seq<char>>,
    pub params: Seq<(Seq<char>, Option<Seq<char>>)>,
}

pub struct ComponentView {
    pub component_type: ComponentType,
    pub name: Seq<char>,
    pub line: usize,
    pub body: LineState,
}

pub struct ModelView {
    pub name: Seq<char>,
    pub model_type: ModelType,
    pub params: Seq<(Seq<char>, Seq<char>)>,
    pub line: usize,
}

pub struct NetlistView {
    pub components: Seq<ComponentView>,
    pub models: Seq<ModelView>,
    pub input_node: Option<Seq<char>>,
    pub output_node: Option<Seq<char>>,
}

impl View for ComponentSyntax {
    type V = ComponentView;

    open spec fn view(&self) -> ComponentView {
        ComponentView {
            component_type: self.component_type,
            name: self.name@,
            line: self.line,
            body: LineState {
                nodes: str_views(self.nodes@),
                value: opt_view(self.value),
                model_ref: opt_view(self.model_ref),
                lfo_ref: opt_view(self.lfo_ref),
                params: self.params@.map_values(|p: Param| param_view(p)),
            },
        }
    }
}

impl View for ModelSyntax {
    type V = ModelView;

    open spec fn view(&self) -> ModelView {
        ModelView {
            name: self.name@,
            model_type: self.model_type,
            params: self.params@.map_values(|p: ModelParam| (p.name@, p.value@)),
            line: self.line,
        }
    }
}

impl View for NetlistSyntax {
    type V = NetlistView;

    open spec fn view(&self) -> NetlistView {
        NetlistView {
            components: self.components@.map_values(|c: ComponentSyntax| c@),
            models: self.models@.map_values(|m: ModelSyntax| m@),
            input_node: opt_view(self.input_node),
            output_node: opt_view(self.output_node),
        }
    }
}

pub open spec fn empty_line() -> LineState {
    LineState {
        nodes: Seq::empty(),
        value: None,
        model_ref: None,
        lfo_ref: None,
        params: Seq::empty(),
    }
}

/// Reading a component line after its name, from token `i`, with `n`
/// terminals expected: words fill the nodes first; then a word is the value
/// if it is one and otherwise the model reference; `name=value` sets a
/// parameter when the value is a number, and `mod=` or `lfo=` with a word
/// names the modulating oscillator (other parameters are dropped); `DC` or `AC` among the
/// nodes sets a flag and takes the following value; a number `0` while
/// nodes are missing is ground, any other number the value and, once the
/// value is set, the `position` parameter. The line ends at a newline, the
/// end of input, or any other token.
pub open spec fn line_body(
    toks: Seq<Token>,
    err: Option<DslError>,
    i: int,
    n: nat,
    st: LineState,
) -> Result<(LineState, int), DslError>
    decreases toks.len() - i,
{
    if i < 0 || i >= toks.len() {
        Ok((st, i))
    } else {
        let k = toks[i].kind;
        let text = toks[i].text@;
        if k == TokenKind::Identifier {
            if i + 1 >= toks.len() {
                Err(stream_error(err))
            } else if toks[i + 1].kind == TokenKind::Equals {
                if i + 2 >= toks.len() {
                    Err(stream_error(err))
                } else if toks[i + 2].kind == TokenKind::Number || toks[i + 2].kind
                    == TokenKind::Identifier {
                    if i + 3 >= toks.len() {
                        Err(stream_error(err))
                    } else {
                        let v = toks[i + 2].text@;
                        let name = lowercase(text);
                        let st2 = if is_value_text(v) {
                            LineState { params: st.params.push((name, Some(v))), ..st }
                        } else if name == "mod"@ || name == "lfo"@ {
                            LineState { lfo_ref: Some(v), ..st }
                        } else {
                            st
                        };
                        line_body(toks, err, i + 3, n, st2)
                    }
                } else {
                    line_body(toks, err, i + 2, n, st)
                }
            } else if st.nodes.len() >= n {
                let st2 = if is_value_text(text) {
                    LineState { value: Some(text), ..st }
                } else {
                    LineState { model_ref: Some(text), ..st }
                };
                line_body(toks, err, i + 1, n, st2)
            } else if text == "DC"@ || text == "AC"@ {
                let flag = if text == "DC"@ {
                    "dc"@
                } else {
                    "ac"@
                };
                let st1 = LineState { params: st.params.push((flag, None)), ..st };
                if toks[i + 1].kind == TokenKind::Number || toks[i + 1].kind == TokenKind::Identifier {
                    if i + 2 >= toks.len() {
                        Err(stream_error(err))
                    } else {
                        let v = toks[i + 1].text@;
                        let st2 = if is_value_text(v) {
                            LineState { value: Some(v), ..st1 }
                        } else {
                            st1
                        };
                        line_body(toks, err, i + 2, n, st2)
                    }
                } else {
                    line_body(toks, err, i + 1, n, st1)
                }
            } else if text == "0"@ || uppercase(text) == "GND"@ {
                line_body(toks, err, i + 1, n, LineState { nodes: st.nodes.push("0"@), ..st })
            } else {
                line_body(toks, err, i + 1, n, LineState { nodes: st.nodes.push(text), ..st })
            }
        } else if k == TokenKind::Number {
            if i + 1 >= toks.len() {
                Err(stream_error(err))
            } else {
                let st2 = if text == "0"@ && st.nodes.len() < n {
                    LineState { nodes: st.nodes.push("0"@), ..st }
                } else if is_value_text(text) {
                    if st.value is None {
                        LineState { value: Some(text), ..st }
                    } else {
                        LineState { params: st.params.push(("position"@, Some(text))), ..st }
                    }
                } else {
                    st
                };
                line_body(toks, err, i + 1, n, st2)
            }
        } else {
            Ok((st, i))
        }
    }
}

/// Reading a component line whose leading word is token `i`.
pub open spec fn component_at(toks: Seq<Token>, err: Option<DslError>, i: int) -> Result<
    (ComponentView, int),
    DslError,
> {
    let first = toks[i].text@;
    let line = toks[i].line;
    if i + 1 >= toks.len() {
        Err(stream_error(err))
    } else {
        match header_rule(first, uppercase(first)) {
            None => Err(DslError::UnknownComponentType { line, text: toks[i].text }),
            Some(h) => {
                let n = node_count(h.component_type);
                if h.name_follows && toks[i + 1].kind != TokenKind::Identifier {
                    Err(
                        DslError::UnexpectedToken {
                            line: toks[i + 1].line,
                            expected: TokenKind::Identifier,
                            found: toks[i + 1].kind,
                        },
                    )
                } else if h.name_follows && i + 2 >= toks.len() {
                    Err(stream_error(err))
                } else {
                    let name_tok = if h.name_follows {
                        toks[i + 1].text
                    } else {
                        toks[i].text
                    };
                    let j = if h.name_follows {
                        i + 2
                    } else {
                        i + 1
                    };
                    match line_body(toks, err, j, n, empty_line()) {
                        Err(e) => Err(e),
                        Ok((st, k)) => if st.nodes.len() < n {
                            Err(
                                DslError::MissingNodes {
                                    line,
                                    name: name_tok,
                                    expected: n as usize,
                                    found: st.nodes.len() as usize,
                                },
                            )
                        } else {
                            Ok(
                                (
                                    ComponentView {
                                        component_type: h.component_type,
                                        name: name_tok@,
                                        line,
                                        body: st,
                                    },
                                    k,
                                ),
                            )
                        },
                    }
                }
            },
        }
    }
}

/// Reading the parameters of a `.model` line from token `i`, just after
/// its '(': each is `name = value`, the value a number or a word that is a
/// value, until ')', a newline or the end of input.
pub open spec fn model_params(
    toks: Seq<Token>,
    err: Option<DslError>,
    i: int,
    line: usize,
    acc: Seq<(Seq<char>, Seq<char>)>,
) -> Result<(Seq<(Seq<char>, Seq<char>)>, int), DslError>
    decreases toks.len() - i,
{
    if i < 0 || i >= toks.len() {
        Ok((acc, i))
    } else {
        let k = toks[i].kind;
        if k == TokenKind::CloseParen || k == TokenKind::Eof || k == TokenKind::Newline {
            Ok((acc, i))
        } else if k != TokenKind::Identifier {
            Err(
                DslError::UnexpectedToken {
                    line: toks[i].line,
                    expected: TokenKind::Identifier,
                    found: k,
                },
            )
        } else if i + 1 >= toks.len() {
            Err(stream_error(err))
        } else if toks[i + 1].kind != TokenKind::Equals {
            Err(
                DslError::UnexpectedToken {
                    line: toks[i + 1].line,
                    expected: TokenKind::Equals,
                    found: toks[i + 1].kind,
                },
            )
        } else if i + 2 >= toks.len() {
            Err(stream_error(err))
        } else if !(toks[i + 2].kind == TokenKind::Number || toks[i + 2].kind
            == TokenKind::Identifier) {
            Err(DslError::ExpectedParameterValue { line })
        } else if i + 3 >= toks.len() {
            Err(stream_error(err))
        } else if !is_value_text(toks[i + 2].text@) {
            Err(DslError::InvalidNumber { line, text: toks[i + 2].text })
        } else {
            model_params(
                toks,
                err,
                i + 3,
                line,
                acc.push((lowercase(toks[i].text@), toks[i + 2].text@)),
            )
        }
    }
}

/// Reading a `.model` line from token `i`, its name: the name, the model
/// type, and parameters in parentheses if a '(' follows.
pub open spec fn model_def_at(toks: Seq<Token>, err: Option<DslError>, i: int, line: usize) -> Result<
    (ModelView, int),
    DslError,
> {
    if toks[i].kind != TokenKind::Identifier {
        Err(
            DslError::UnexpectedToken {
                line: toks[i].line,
                expected: TokenKind::Identifier,
                found: toks[i].kind,
            },
        )
    } else if i + 1 >= toks.len() {
        Err(stream_error(err))
    } else if toks[i + 1].kind != TokenKind::Identifier {
        Err(
            DslError::UnexpectedToken {
                line: toks[i + 1].line,
                expected: TokenKind::Identifier,
                found: toks[i + 1].kind,
            },
        )
    } else if i + 2 >= toks.len() {
        Err(stream_error(err))
    } else {
        match model_type_of(toks[i + 1].text@) {
            None => Err(DslError::UnknownModelType { line, text: toks[i + 1].text }),
            Some(mt) => {
                let name = toks[i].text@;
                if toks[i + 2].kind == TokenKind::OpenParen {
                    if i + 3 >= toks.len() {
                        Err(stream_error(err))
                    } else {
                        match model_params(toks, err, i + 3, line, Seq::empty()) {
                            Err(e) => Err(e),
                            Ok((ps, j)) => {
                                let m = ModelView { name, model_type: mt, params: ps, line };
                                if 0 <= j < toks.len() && toks[j].kind == TokenKind::CloseParen {
                                    if j + 1 >= toks.len() {
                                        Err(stream_error(err))
                                    } else {
                                        Ok((m, j + 1))
                                    }
                                } else {
                                    Ok((m, j))
                                }
                            },
                        }
                    }
                } else {
                    Ok((ModelView { name, model_type: mt, params: Seq::empty(), line }, i + 2))
                }
            },
        }
    }
}

/// Reading a directive line whose directive is token `i`, into `net`.
/// `.node` declarations are read and checked but add nothing: the node
/// names are those that components use.
pub open spec fn directive_at(
    toks: Seq<Token>,
    err: Option<DslError>,
    i: int,
    net: NetlistView,
) -> Result<(NetlistView, int), DslError> {
    let line = toks[i].line;
    if i + 1 >= toks.len() {
        Err(stream_error(err))
    } else {
        match directive_of(toks[i].text@) {
            None => Err(DslError::UnknownDirective { line, text: toks[i].text }),
            Some(Directive::Model) => match model_def_at(toks, err, i + 1, line) {
                Err(e) => Err(e),
                Ok((m, j)) => if exists|k: int|
                    0 <= k < net.models.len() && (#[trigger] net.models[k]).name == m.name {
                    Err(DslError::DuplicateModel { name: toks[i + 1].text })
                } else {
                    Ok((NetlistView { models: net.models.push(m), ..net }, j))
                },
            },
            Some(d) => if toks[i + 1].kind != TokenKind::Identifier {
                Err(
                    DslError::UnexpectedToken {
                        line: toks[i + 1].line,
                        expected: TokenKind::Identifier,
                        found: toks[i + 1].kind,
                    },
                )
            } else if i + 2 >= toks.len() {
                Err(stream_error(err))
            } else {
                let node = toks[i + 1].text@;
                let net2 = if d == Directive::Input {
                    NetlistView { input_node: Some(node), ..net }
                } else if d == Directive::Output {
                    NetlistView { output_node: Some(node), ..net }
                } else {
                    net
                };
                Ok((net2, i + 2))
            },
        }
    }
}

/// Reading a netlist from token `i` on, into `net`: blank lines are
/// skipped; a line is a directive or a component, followed by a newline or
/// the end of input. Past the stored tokens (a stream whose first token
/// could not be read) the lexing error is the result.
pub open spec fn netlist_from(
    toks: Seq<Token>,
    err: Option<DslError>,
    i: int,
    net: NetlistView,
) -> Result<NetlistView, DslError>
    decreases toks.len() - i,
{
    if i < 0 || i >= toks.len() {
        match err {
            Some(e) => Err(e),
            None => Ok(net),
        }
    } else {
        let k = toks[i].kind;
        if k == TokenKind::Eof {
            Ok(net)
        } else if k == TokenKind::Newline {
            if i + 1 >= toks.len() {
                Err(stream_error(err))
            } else {
                netlist_from(toks, err, i + 1, net)
            }
        } else if k == TokenKind::Directive || k == TokenKind::Identifier {
            let step = if k == TokenKind::Directive {
                directive_at(toks, err, i, net)
            } else {
                match component_at(toks, err, i) {
                    Err(e) => Err(e),
                    Ok((c, j)) => Ok((NetlistView { components: net.components.push(c), ..net }, j)),
                }
            };
            match step {
                Err(e) => Err(e),
                Ok((net2, j)) => if j <= i || j > toks.len() {
                    Ok(net2)
                } else if j < toks.len() && toks[j].kind == TokenKind::Newline {
                    if j + 1 >= toks.len() {
                        Err(stream_error(err))
                    } else {
                        netlist_from(toks, err, j + 1, net2)
                    }
                } else {
                    netlist_from(toks, err, j, net2)
                },
            }
        } else {
            Err(DslError::UnexpectedLineStart { line: toks[i].line, text: toks[i].text })
        }
    }
}

pub open spec fn empty_netlist() -> NetlistView {
    NetlistView {
        components: Seq::empty(),
        models: Seq::empty(),
        input_node: None,
        output_node: None,
    }
}

pub open spec fn line_state_of(
    nodes: Seq<String>,
    value: Option<String>,
    model_ref: Option<String>,
    lfo_ref: Option<String>,
    params: Seq<Param>,
) -> LineState {
    LineState {
        nodes: str_views(nodes),
        value: opt_view(value),
        model_ref: opt_view(model_ref),
        lfo_ref: opt_view(lfo_ref),
        params: params.map_values(|p: Param| param_view(p)),
    }
}

proof fn lemma_push_str(v: Seq<String>, x: String)
    ensures
        str_views(v.push(x)) == str_views(v).push(x@),
{
    assert(str_views(v.push(x)) =~= str_views(v).push(x@));
}

proof fn lemma_push_param(v: Seq<Param>, x: Param)
    ensures
        v.push(x).map_values(|p: Param| param_view(p)) == v.map_values(|p: Param| param_view(p)).push(
            param_view(x),
        ),
{
    assert(v.push(x).map_values(|p: Param| param_view(p)) =~= v.map_values(|p: Param| param_view(p)).push(
        param_view(x),
    ));
}

proof fn lemma_push_model_param(v: Seq<ModelParam>, x: ModelParam)
    ensures
        v.push(x).map_values(|p: ModelParam| (p.name@, p.value@)) == v.map_values(
            |p: ModelParam| (p.name@, p.value@),
        ).push((x.name@, x.value@)),
{
    assert(v.push(x).map_values(|p: ModelParam| (p.name@, p.value@)) =~= v.map_values(
        |p: ModelParam| (p.name@, p.value@),
    ).push((x.name@, x.value@)));
}

/// In a well-formed stream, a token that is not the end of input has a
/// successor, or the stream ends in an error right after it.
proof fn lemma_next_exists(toks: Seq<Token>, err: Option<DslError>, i: int)
    requires
        stream_wf(toks, err),
        0 <= i < toks.len(),
        toks[i].kind != TokenKind::Eof,
    ensures
        i + 1 < toks.len() || err is Some,
{
    if i + 1 >= toks.len() && err is None {
        assert(toks[toks.len() - 1].kind == TokenKind::Eof);
    }
}

/// Whether a model of name `name` is among `models`.
fn has_model(models: &Vec<ModelSyntax>, name: &String) -> (r: bool)
    ensures
        r == exists|k: int| 0 <= k < models@.len() && (#[trigger] models@[k]).name@ == name@,
{
    let mut k: usize = 0;
    while k < models.len()
        invariant
            k <= models.len(),
            forall|j: int| 0 <= j < k ==> (#[trigger] models@[j]).name@ != name@,
        decreases models.len() - k,
    {
        if same_text(models[k].name.as_str(), name.as_str()) {
            return true;
        }
        k = k + 1;
    }
    false
}

/// A cursor over the token stream of one netlist, holding the current
/// token.
pub struct Parser {
    tokens: Vec<Token>,
    error: Option<DslError>,
    index: usize,
    current: Token,
}

impl Parser {
    /// The tokens read.
    pub closed spec fn toks(&self) -> Seq<Token> {
        self.tokens@
    }

    /// The lexing error that ends the stream, if any.
    pub closed spec fn err(&self) -> Option<DslError> {
        self.error
    }

    /// Index of the current token.
    pub closed spec fn idx(&self) -> int {
        self.index as int
    }

    /// The current token.
    pub closed spec fn cur(&self) -> Token {
        self.current
    }

    pub closed spec fn wf(&self) -> bool {
        &&& stream_wf(self.tokens@, self.error)
        &&& if self.tokens.len() == 0 {
            self.index == 0 && self.current.kind == TokenKind::Eof && self.current.text@.len() == 0
                && self.current.line == 1 && self.current.column == 1
        } else {
            self.index < self.tokens.len() && self.current == self.tokens@[self.index as int]
        }
    }

    /// A parser over the tokens of `lexer` from its position on, at the
    /// first of them. Where that token cannot be read, the current token is
    /// an end of input at line 1, column 1 and the stream holds the lexing
    /// error, which `advance` and `parse` report.
    pub fn new(lexer: Lexer) -> (r: Parser)
        requires
            lexer.wf(),
        ensures
            r.wf(),
            is_stream_of(lexer.input(), lexer.pos(), r.toks(), r.err()),
            r.idx() == 0,
    {
        let mut lexer = lexer;
        let stream = lexer.tokenize();
        let current = if stream.tokens.len() > 0 {
            copy_token(&stream.tokens[0])
        } else {
            Token { kind: TokenKind::Eof, text: String::new(), line: 1, column: 1 }
        };
        Parser { tokens: stream.tokens, error: stream.error, index: 0, current }
    }

    /// The current token.
    pub fn current(&self) -> (r: &Token)
        ensures
            *r == self.cur(),
    {
        &self.current
    }

    /// Moves to the next token. Past the last token read this reports the
    /// lexing error that ended the stream, or stays on the end of input.
    pub fn advance(&mut self) -> (r: Result<(), DslError>)
        requires
            old(self).wf(),
        ensures
            final(self).wf(),
            final(self).toks() == old(self).toks(),
            final(self).err() == old(self).err(),
            old(self).idx() + 1 < old(self).toks().len() ==> r is Ok && final(self).idx()
                == old(self).idx() + 1,
            old(self).idx() + 1 >= old(self).toks().len() ==> final(self).idx() == old(self).idx()
                && final(self).cur() == old(self).cur() && match old(self).err() {
                Some(e) => r == Err::<(), DslError>(e),
                None => r is Ok,
            },
    {
        if self.index + 1 < self.tokens.len() {
            self.index = self.index + 1;
            self.current = copy_token(&self.tokens[self.index]);
            Ok(())
        } else {
            match &self.error {
                Some(e) => Err(e.duplicate()),
                None => Ok(()),
            }
        }
    }

    /// Takes the current token if it has kind `kind` and moves on; otherwise
    /// reports what was expected and what was found, and moves nowhere.
    pub fn expect(&mut self, kind: TokenKind) -> (r: Result<Token, DslError>)
        requires
            old(self).wf(),
        ensures
            final(self).wf(),
            final(self).toks() == old(self).toks(),
            final(self).err() == old(self).err(),
            old(self).cur().kind != kind ==> r == Err::<Token, DslError>(
                DslError::UnexpectedToken {
                    line: old(self).cur().line,
                    expected: kind,
                    found: old(self).cur().kind,
                },
            ) && final(self).idx() == old(self).idx(),
            old(self).cur().kind == kind && old(self).idx() + 1 < old(self).toks().len() ==> r
                == Ok::<Token, DslError>(old(self).cur()) && final(self).idx() == old(self).idx()
                + 1,
            old(self).cur().kind == kind && old(self).idx() + 1 >= old(self).toks().len() ==> match old(
                self,
            ).err() {
                Some(e) => r == Err::<Token, DslError>(e),
                None => r == Ok::<Token, DslError>(old(self).cur()),
            } && final(self).idx() == old(self).idx(),
    {
        if self.current.kind != kind {
            return Err(
                DslError::UnexpectedToken {
                    line: self.current.line,
                    expected: kind,
                    found: self.current.kind,
                },
            );
        }
        let tok = copy_token(&self.current);
        self.advance()?;
        Ok(tok)
    }

    /// Reads the rest of a component line with `n` terminals expected: node
    /// names, value, model reference and parameters.
    fn parse_line_body(&mut self, n: usize) -> (r: Result<
        (Vec<String>, Option<String>, Option<String>, Option<String>, Vec<Param>),
        DslError,
    >)
        requires
            old(self).wf(),
            old(self).toks().len() > 0,
        ensures
            final(self).wf(),
            final(self).toks() == old(self).toks(),
            final(self).err() == old(self).err(),
            final(self).idx() >= old(self).idx(),
            match r {
                Ok((nodes, value, model_ref, lfo_ref, params)) => line_body(
                    old(self).toks(),
                    old(self).err(),
                    old(self).idx(),
                    n as nat,
                    empty_line(),
                ) == Ok::<(LineState, int), DslError>(
                    (line_state_of(nodes@, value, model_ref, lfo_ref, params@), final(self).idx()),
                ),
                Err(e) => line_body(
                    old(self).toks(),
                    old(self).err(),
                    old(self).idx(),
                    n as nat,
                    empty_line(),
                ) == Err::<(LineState, int), DslError>(e),
            },
    {
        let ghost toks = self.tokens@;
        let ghost err = self.error;
        let ghost i0 = self.index as int;
        let mut nodes: Vec<String> = Vec::new();
        let mut value: Option<String> = None;
        let mut model_ref: Option<String> = None;
        let mut lfo_ref: Option<String> = None;
        let mut params: Vec<Param> = Vec::new();
        proof {
            assert(str_views(nodes@) =~= Seq::<Seq<char>>::empty());
            assert(params@.map_values(|p: Param| param_view(p)) =~= Seq::<(Seq<char>, Option<Seq<char>>)>::empty());
            assert(line_state_of(nodes@, value, model_ref, lfo_ref, params@) == empty_line());
        }
        loop
            invariant
                self.wf(),
                self.toks() == toks,
                self.err() == err,
                toks.len() > 0,
                self.idx() >= i0,
                i0 == old(self).idx(),
                toks == old(self).toks(),
                err == old(self).err(),
                line_body(toks, err, i0, n as nat, empty_line()) == line_body(
                    toks,
                    err,
                    self.idx(),
                    n as nat,
                    line_state_of(nodes@, value, model_ref, lfo_ref, params@),
                ),
            decreases toks.len() - self.idx(),
        {
            let ghost i = self.index as int;
            let ghost st = line_state_of(nodes@, value, model_ref, lfo_ref, params@);
            let kind = self.current.kind;
            if kind == TokenKind::Identifier {
                let text = self.current.text.clone();
                proof {
                    lemma_next_exists(toks, err, i);
                }
                self.advance()?;
                if self.current.kind == TokenKind::Equals {
                    proof {
                        lemma_next_exists(toks, err, i + 1);
                    }
                    self.advance()?;
                    if self.current.kind == TokenKind::Number || self.current.kind
                        == TokenKind::Identifier {
                        let v = self.current.text.clone();
                        proof {
                            lemma_next_exists(toks, err, i + 2);
                        }
                        self.advance()?;
                        let name = to_lowercase(text.as_str());
                        if is_value(v.as_str()) {
                            let p = Param { name, value: ParamValue::Number(v) };
                            proof {
                                lemma_push_param(params@, p);
                            }
                            params.push(p);
                        } else if same_text(name.as_str(), "mod") || same_text(name.as_str(), "lfo") {
                            lfo_ref = Some(v);
                        }
                    }
                } else if nodes.len() >= n {
                    if is_value(text.as_str()) {
                        value = Some(text);
                    } else {
                        model_ref = Some(text);
                    }
                } else if same_text(text.as_str(), "DC") || same_text(text.as_str(), "AC") {
                    let flag = if same_text(text.as_str(), "DC") {
                        String::from_str("dc")
                    } else {
                        String::from_str("ac")
                    };
                    let p = Param { name: flag, value: ParamValue::Flag };
                    proof {
                        lemma_push_param(params@, p);
                    }
                    params.push(p);
                    if self.current.kind == TokenKind::Number || self.current.kind
                        == TokenKind::Identifier {
                        let v = self.current.text.clone();
                        proof {
                            lemma_next_exists(toks, err, i + 1);
                        }
                        self.advance()?;
                        if is_value(v.as_str()) {
                            value = Some(v);
                        }
                    }
                } else {
                    let upper = to_uppercase(text.as_str());
                    let node = if same_text(text.as_str(), "0") || same_text(upper.as_str(), "GND") {
                        String::from_str("0")
                    } else {
                        text
                    };
                    proof {
                        lemma_push_str(nodes@, node);
                    }
                    nodes.push(node);
                }
            } else if kind == TokenKind::Number {
                let text = self.current.text.clone();
                proof {
                    lemma_next_exists(toks, err, i);
                }
                self.advance()?;
                if same_text(text.as_str(), "0") && nodes.len() < n {
                    let node = String::from_str("0");
                    proof {
                        lemma_push_str(nodes@, node);
                    }
                    nodes.push(node);
                } else if is_value(text.as_str()) {
                    if value.is_none() {
                        value = Some(text);
                    } else {
                        let p = Param { name: String::from_str("position"), value: ParamValue::Number(text) };
                        proof {
                            lemma_push_param(params@, p);
                        }
                        params.push(p);
                    }
                }
            } else {
                return Ok((nodes, value, model_ref, lfo_ref, params));
            }
        }
    }


    /// Reads a component line whose leading word is the current token.
    fn parse_component(&mut self) -> (r: Result<ComponentSyntax, DslError>)
        requires
            old(self).wf(),
            old(self).toks().len() > 0,
            old(self).cur().kind == TokenKind::Identifier,
        ensures
            final(self).wf(),
            final(self).toks() == old(self).toks(),
            final(self).err() == old(self).err(),
            r is Ok ==> final(self).idx() > old(self).idx(),
            match r {
                Ok(c) => component_at(old(self).toks(), old(self).err(), old(self).idx()) == Ok::<
                    (ComponentView, int),
                    DslError,
                >((c@, final(self).idx())),
                Err(e) => component_at(old(self).toks(), old(self).err(), old(self).idx()) == Err::<
                    (ComponentView, int),
                    DslError,
                >(e),
            },
    {
        let ghost toks = self.tokens@;
        let ghost err = self.error;
        let ghost i = self.index as int;
        let first_token = self.current.text.clone();
        let line = self.current.line;
        proof {
            lemma_next_exists(toks, err, i);
        }
        self.advance()?;
        let header = match component_header(first_token.as_str()) {
            Some(h) => h,
            None => {
                return Err(DslError::UnknownComponentType { line, text: first_token });
            },
        };
        let name = if header.name_follows {
            if self.current.kind == TokenKind::Identifier {
                proof {
                    lemma_next_exists(toks, err, i + 1);
                }
            }
            let tok = self.expect(TokenKind::Identifier)?;
            tok.text
        } else {
            first_token
        };
        let n = header.component_type.expected_node_count();
        let (nodes, value, model_ref, lfo_ref, params) = self.parse_line_body(n)?;
        if nodes.len() < n {
            return Err(
                DslError::MissingNodes { line, name, expected: n, found: nodes.len() },
            );
        }
        Ok(
            ComponentSyntax {
                component_type: header.component_type,
                name,
                nodes,
                value,
                model_ref,
                lfo_ref,
                params,
                line,
            },
        )
    }


    /// Reads `name = value` parameters of a `.model` line up to ')', a
    /// newline or the end of input.
    fn parse_model_params(&mut self, line: usize) -> (r: Result<Vec<ModelParam>, DslError>)
        requires
            old(self).wf(),
            old(self).toks().len() > 0,
        ensures
            final(self).wf(),
            final(self).toks() == old(self).toks(),
            final(self).err() == old(self).err(),
            final(self).idx() >= old(self).idx(),
            match r {
                Ok(ps) => model_params(old(self).toks(), old(self).err(), old(self).idx(), line, Seq::empty())
                    == Ok::<(Seq<(Seq<char>, Seq<char>)>, int), DslError>(
                    (ps@.map_values(|p: ModelParam| (p.name@, p.value@)), final(self).idx()),
                ),
                Err(e) => model_params(old(self).toks(), old(self).err(), old(self).idx(), line, Seq::empty())
                    == Err::<(Seq<(Seq<char>, Seq<char>)>, int), DslError>(e),
            },
    {
        let ghost toks = self.tokens@;
        let ghost err = self.error;
        let ghost i0 = self.index as int;
        let mut params: Vec<ModelParam> = Vec::new();
        proof {
            assert(params@.map_values(|p: ModelParam| (p.name@, p.value@)) =~= Seq::<(Seq<char>, Seq<char>)>::empty());
        }
        loop
            invariant
                self.wf(),
                self.toks() == toks,
                self.err() == err,
                toks.len() > 0,
                self.idx() >= i0,
                i0 == old(self).idx(),
                toks == old(self).toks(),
                err == old(self).err(),
                model_params(toks, err, i0, line, Seq::empty()) == model_params(
                    toks,
                    err,
                    self.idx(),
                    line,
                    params@.map_values(|p: ModelParam| (p.name@, p.value@)),
                ),
            decreases toks.len() - self.idx(),
        {
            let ghost i = self.index as int;
            let kind = self.current.kind;
            if kind == TokenKind::CloseParen || kind == TokenKind::Eof || kind == TokenKind::Newline {
                return Ok(params);
            }
            if kind == TokenKind::Identifier {
                proof {
                    lemma_next_exists(toks, err, i);
                }
            }
            let param_name = self.expect(TokenKind::Identifier)?.text;
            if self.current.kind == TokenKind::Equals {
                proof {
                    lemma_next_exists(toks, err, i + 1);
                }
            }
            self.expect(TokenKind::Equals)?;
            if !(self.current.kind == TokenKind::Number || self.current.kind == TokenKind::Identifier) {
                return Err(DslError::ExpectedParameterValue { line });
            }
            let text = self.current.text.clone();
            proof {
                lemma_next_exists(toks, err, i + 2);
            }
            self.advance()?;
            if !is_value(text.as_str()) {
                return Err(DslError::InvalidNumber { line, text });
            }
            let p = ModelParam { name: to_lowercase(param_name.as_str()), value: text };
            proof {
                lemma_push_model_param(params@, p);
            }
            params.push(p);
        }
    }

    /// Reads a `.model` line from its name on.
    fn parse_model_def(&mut self, line: usize) -> (r: Result<ModelSyntax, DslError>)
        requires
            old(self).wf(),
            old(self).toks().len() > 0,
        ensures
            final(self).wf(),
            final(self).toks() == old(self).toks(),
            final(self).err() == old(self).err(),
            r is Ok ==> final(self).idx() > old(self).idx(),
            match r {
                Ok(m) => model_def_at(old(self).toks(), old(self).err(), old(self).idx(), line)
                    == Ok::<(ModelView, int), DslError>((m@, final(self).idx())),
                Err(e) => model_def_at(old(self).toks(), old(self).err(), old(self).idx(), line)
                    == Err::<(ModelView, int), DslError>(e),
            },
    {
        let ghost toks = self.tokens@;
        let ghost err = self.error;
        let ghost i = self.index as int;
        if self.current.kind == TokenKind::Identifier {
            proof {
                lemma_next_exists(toks, err, i);
            }
        }
        let name = self.expect(TokenKind::Identifier)?.text;
        if self.current.kind == TokenKind::Identifier {
            proof {
                lemma_next_exists(toks, err, i + 1);
            }
        }
        let type_str = self.expect(TokenKind::Identifier)?.text;
        let model_type = match ModelType::from_str(type_str.as_str()) {
            Some(t) => t,
            None => {
                return Err(DslError::UnknownModelType { line, text: type_str });
            },
        };
        let mut params: Vec<ModelParam> = Vec::new();
        proof {
            assert(params@.map_values(|p: ModelParam| (p.name@, p.value@)) =~= Seq::<(Seq<char>, Seq<char>)>::empty());
        }
        if self.current.kind == TokenKind::OpenParen {
            proof {
                lemma_next_exists(toks, err, i + 2);
            }
            self.advance()?;
            params = self.parse_model_params(line)?;
            if self.current.kind == TokenKind::CloseParen {
                proof {
                    lemma_next_exists(toks, err, self.index as int);
                }
                self.advance()?;
            }
        }
        Ok(ModelSyntax { name, model_type, params, line })
    }

    /// Reads a directive line into `net`.
    fn parse_directive(&mut self, net: &mut NetlistSyntax) -> (r: Result<(), DslError>)
        requires
            old(self).wf(),
            old(self).toks().len() > 0,
            old(self).cur().kind == TokenKind::Directive,
        ensures
            final(self).wf(),
            final(self).toks() == old(self).toks(),
            final(self).err() == old(self).err(),
            r is Ok ==> final(self).idx() > old(self).idx(),
            match r {
                Ok(_) => directive_at(old(self).toks(), old(self).err(), old(self).idx(), old(net)@)
                    == Ok::<(NetlistView, int), DslError>((final(net)@, final(self).idx())),
                Err(e) => directive_at(old(self).toks(), old(self).err(), old(self).idx(), old(net)@)
                    == Err::<(NetlistView, int), DslError>(e),
            },
    {
        let ghost toks = self.tokens@;
        let ghost err = self.error;
        let ghost i = self.index as int;
        let directive = self.current.text.clone();
        let line = self.current.line;
        proof {
            lemma_next_exists(toks, err, i);
        }
        self.advance()?;
        match Directive::from_text(directive.as_str()) {
            None => Err(DslError::UnknownDirective { line, text: directive }),
            Some(Directive::Model) => {
                let name_tok = self.current.text.clone();
                let model = self.parse_model_def(line)?;
                if has_model(&net.models, &model.name) {
                    proof {
                        let k = choose|k: int|
                            0 <= k < net.models@.len() && (#[trigger] net.models@[k]).name@
                                == model.name@;
                        assert(net@.models[k] == net.models@[k]@);
                    }
                    return Err(DslError::DuplicateModel { name: name_tok });
                }
                proof {
                    assert forall|j: int| 0 <= j < net@.models.len() implies (#[trigger] net@.models[j]).name
                        != model@.name by {
                        assert(net@.models[j] == net.models@[j]@);
                    }
                }
                let ghost before = net.models@;
                net.models.push(model);
                proof {
                    assert(net.models@.map_values(|m: ModelSyntax| m@) =~= before.map_values(
                        |m: ModelSyntax| m@,
                    ).push(model@));
                }
                Ok(())
            },
            Some(d) => {
                if self.current.kind == TokenKind::Identifier {
                    proof {
                        lemma_next_exists(toks, err, i + 1);
                    }
                }
                let node = self.expect(TokenKind::Identifier)?;
                if d == Directive::Input {
                    net.input_node = Some(node.text);
                } else if d == Directive::Output {
                    net.output_node = Some(node.text);
                }
                Ok(())
            },
        }
    }

    /// Reads the netlist from the current token to the end of input.
    pub fn parse(&mut self) -> (r: Result<NetlistSyntax, DslError>)
        requires
            old(self).wf(),
        ensures
            final(self).wf(),
            match r {
                Ok(net) => netlist_from(old(self).toks(), old(self).err(), old(self).idx(), empty_netlist())
                    == Ok::<NetlistView, DslError>(net@),
                Err(e) => netlist_from(old(self).toks(), old(self).err(), old(self).idx(), empty_netlist())
                    == Err::<NetlistView, DslError>(e),
            },
    {
        let ghost toks = self.tokens@;
        let ghost err = self.error;
        let ghost i0 = self.index as int;
        let mut net = NetlistSyntax {
            components: Vec::new(),
            models: Vec::new(),
            input_node: None,
            output_node: None,
        };
        proof {
            assert(net@.components =~= Seq::<ComponentView>::empty());
            assert(net@.models =~= Seq::<ModelView>::empty());
            assert(net@ == empty_netlist());
        }
        if self.tokens.len() == 0 {
            return match &self.error {
                Some(e) => Err(e.duplicate()),
                None => Ok(net),
            };
        }
        loop
            invariant
                self.wf(),
                self.toks() == toks,
                self.err() == err,
                toks.len() > 0,
                i0 == old(self).idx(),
                toks == old(self).toks(),
                err == old(self).err(),
                netlist_from(toks, err, i0, empty_netlist()) == netlist_from(
                    toks,
                    err,
                    self.idx(),
                    net@,
                ),
            decreases toks.len() - self.idx(),
        {
            let ghost i = self.index as int;
            let ghost before = net@;
            let kind = self.current.kind;
            if kind == TokenKind::Eof {
                return Ok(net);
            }
            if kind == TokenKind::Newline {
                proof {
                    lemma_next_exists(toks, err, i);
                }
                self.advance()?;
                continue;
            }
            if kind == TokenKind::Directive {
                self.parse_directive(&mut net)?;
            } else if kind == TokenKind::Identifier {
                let c = self.parse_component()?;
                let ghost comps = net.components@;
                net.components.push(c);
                proof {
                    assert(net.components@.map_values(|c: ComponentSyntax| c@) =~= comps.map_values(
                        |c: ComponentSyntax| c@,
                    ).push(c@));
                }
            } else {
                return Err(
                    DslError::UnexpectedLineStart {
                        line: self.current.line,
                        text: self.current.text.clone(),
                    },
                );
            }
            if self.current.kind == TokenKind::Newline {
                proof {
                    lemma_next_exists(toks, err, self.index as int);
                }
                self.advance()?;
            }
        }
    }

}

/// Parses a whole netlist: the syntax tree that the grammar gives for the
/// tokens of `input`, or the first error met reading them.
pub fn parse(input: &str) -> (r: Result<NetlistSyntax, DslError>)
    requires
        input@.len() < usize::MAX,
    ensures
        exists|toks: Seq<Token>, err: Option<DslError>|
            is_stream_of(input@, 0, toks, err) && match r {
                Ok(net) => netlist_from(toks, err, 0, empty_netlist()) == Ok::<NetlistView, DslError>(
                    net@,
                ),
                Err(e) => netlist_from(toks, err, 0, empty_netlist()) == Err::<NetlistView, DslError>(
                    e,
                ),
            },
{
    let lexer = Lexer::new(input);
    let mut parser = Parser::new(lexer);
    let ghost toks = parser.toks();
    let ghost err = parser.err();
    let r = parser.parse();
    assert(is_stream_of(input@, 0, toks, err));
    r
}

} // verus!
