//! Reading a command line into the restricted shell syntax tree. Lexing (quotes,
//! escapes, operators) is brush-parser's; the grammar accepted on top of it is:
//! simple commands joined by `|`, and pipelines joined by `&&` or `||`. Every
//! other construct is refused.
use crate::shell::{AndOr, Command, Expression};
use crate::text::{contains_char, str_eq, views};
use crate::tool_error::ToolError;
use vstd::prelude::*;
use vstd::string::StrSliceExecFns;
use vstd::string::StringExecFns;

verus! {

/// One lexical token of a command line: an operator (`|`, `&&`, `;`, `>`, ...) or a
/// word, with its raw text (quotes kept).
#[derive(Clone, Debug)]
pub struct ShellToken {
    pub operator: bool,
    pub text: String,
}

/// A token as a value: whether it is an operator, and its text.
pub type TokenView = (bool, Seq<char>);

pub open spec fn token_view(t: ShellToken) -> TokenView {
    (t.operator, t.text@)
}

/// What the lexer makes of a command line: its tokens, or its error message.
pub uninterp spec fn shell_lex(input: Seq<char>) -> Result<Seq<TokenView>, Seq<char>>;

pub open spec fn lex_view(r: Result<Vec<ShellToken>, String>) -> Result<Seq<TokenView>, Seq<char>> {
    match r {
        Ok(v) => Ok(v@.map_values(|t: ShellToken| token_view(t))),
        Err(e) => Err(e@),
    }
}

/// Relies on brush_parser::tokenize_str to split a command line into operator and
/// word tokens the way bash does; the result depends on the text alone.
#[verifier::external_body]
fn lex(input: &str) -> (r: Result<Vec<ShellToken>, String>)
    ensures
        lex_view(r) == shell_lex(input@),
{
    match brush_parser::tokenize_str(input) {
        Ok(tokens) => Ok(
            tokens.iter().map(|t| match t {
                brush_parser::Token::Operator(s, _) => ShellToken { operator: true, text: s.clone() },
                brush_parser::Token::Word(s, _) => ShellToken { operator: false, text: s.clone() },
            }).collect(),
        ),
        Err(e) => Err(e.to_string()),
    }
}

pub open spec fn pipe_token() -> TokenView {
    (true, "|"@)
}

pub open spec fn andor_token(a: AndOr) -> TokenView {
    match a {
        AndOr::And => (true, "&&"@),
        AndOr::Or => (true, "||"@),
    }
}

pub open spec fn command_tokens(c: Command) -> Seq<TokenView> {
    seq![(false, c.program@)] + views(c.args@).map_values(|a: Seq<char>| (false, a))
}

/// The tokens of a pipeline: its commands separated by `|`.
pub open spec fn pipeline_tokens(p: Seq<Command>) -> Seq<TokenView>
    decreases p.len(),
{
    if p.len() == 0 {
        seq![]
    } else if p.len() == 1 {
        command_tokens(p[0])
    } else {
        pipeline_tokens(p.drop_last()) + seq![pipe_token()] + command_tokens(p.last())
    }
}

/// The tokens of a chain of pipelines: the first one, then each further one preceded
/// by its operator (the first entry's operator is not written).
pub open spec fn chain_tokens(pipes: Seq<(AndOr, Vec<Command>)>) -> Seq<TokenView>
    decreases pipes.len(),
{
    if pipes.len() == 0 {
        seq![]
    } else if pipes.len() == 1 {
        pipeline_tokens(pipes[0].1@)
    } else {
        chain_tokens(pipes.drop_last()) + seq![andor_token(pipes.last().0)] + pipeline_tokens(
            pipes.last().1@,
        )
    }
}

/// The pipelines of an expression, the first one tagged `And`.
pub open spec fn chain_of(e: Expression) -> Seq<(AndOr, Vec<Command>)> {
    seq![(AndOr::And, e.first)] + e.rest@
}

/// The tokens that an expression is written with.
pub open spec fn expression_tokens(e: Expression) -> Seq<TokenView> {
    chain_tokens(chain_of(e))
}

/// Words that begin a compound command, a negation or a timed pipeline.
pub open spec fn reserved_words() -> Set<Seq<char>> {
    set![
        "!"@,
        "time"@,
        "if"@,
        "then"@,
        "elif"@,
        "else"@,
        "fi"@,
        "do"@,
        "done"@,
        "case"@,
        "esac"@,
        "while"@,
        "until"@,
        "for"@,
        "in"@,
        "select"@,
        "function"@,
        "coproc"@,
        "{"@,
        "}"@,
        "[["@,
        "]]"@,
    ]
}

/// A word holds no command substitution (`` ` `` or `$(`) and no process
/// substitution (`<(`, `>(`).
pub open spec fn word_ok(w: Seq<char>) -> bool {
    &&& forall|i: int| 0 <= i < w.len() ==> w[i] != '`'
    &&& forall|i: int|
        0 <= i < w.len() - 1 ==> !(((#[trigger] w[i]) == '$' || w[i] == '<' || w[i] == '>')
            && w[i + 1] == '(')
}

/// A word may name the program of a simple command: it is no reserved word and no
/// assignment.
pub open spec fn program_ok(w: Seq<char>) -> bool {
    &&& word_ok(w)
    &&& !reserved_words().contains(w)
    &&& forall|i: int| 0 <= i < w.len() ==> w[i] != '='
}

pub open spec fn command_ok(c: Command) -> bool {
    &&& program_ok(c.program@)
    &&& forall|k: int| 0 <= k < c.args@.len() ==> word_ok(#[trigger] c.args@[k]@)
}

pub open spec fn chain_well_formed(pipes: Seq<(AndOr, Vec<Command>)>) -> bool {
    forall|j: int|
        0 <= j < pipes.len() ==> {
            &&& (#[trigger] pipes[j]).1@.len() > 0
            &&& forall|k: int| 0 <= k < pipes[j].1@.len() ==> command_ok(#[trigger] pipes[j].1@[k])
        }
}

/// Every pipeline of the expression has a command, and every command is a valid
/// simple command.
pub open spec fn expression_well_formed(e: Expression) -> bool {
    chain_well_formed(chain_of(e))
}

pub open spec fn allowed_operator(s: Seq<char>) -> bool {
    s == "|"@ || s == "&&"@ || s == "||"@
}

/// Token `i` begins a command: it is the first one, or follows an operator.
pub open spec fn starts_command(toks: Seq<TokenView>, i: int) -> bool {
    i == 0 || toks[i - 1].0
}

/// The conditions on token `i` of an accepted command line.
pub open spec fn token_ok(toks: Seq<TokenView>, i: int) -> bool {
    if toks[i].0 {
        allowed_operator(toks[i].1) && !starts_command(toks, i)
    } else {
        word_ok(toks[i].1) && (starts_command(toks, i) ==> program_ok(toks[i].1))
    }
}

/// The token sequences of the restricted grammar: non-empty, ending in a word, with
/// only `|`, `&&` and `||` as operators, never two in a row nor one first, and valid
/// words.
pub open spec fn tokens_accepted(toks: Seq<TokenView>) -> bool {
    &&& toks.len() > 0
    &&& !toks.last().0
    &&& forall|i: int| 0 <= i < toks.len() ==> token_ok(toks, i)
}

/// The tokens read so far, from the parser's state.
pub open spec fn partial_tokens(
    pipes: Seq<(AndOr, Vec<Command>)>,
    cur_op: AndOr,
    cur: Seq<Command>,
    has_cmd: bool,
    c: Command,
) -> Seq<TokenView> {
    let all_cur = if has_cmd {
        cur.push(c)
    } else {
        cur
    };
    let sep = if pipes.len() > 0 {
        seq![andor_token(cur_op)]
    } else {
        seq![]
    };
    let tail = if !has_cmd && cur.len() > 0 {
        seq![pipe_token()]
    } else {
        seq![]
    };
    chain_tokens(pipes) + sep + pipeline_tokens(all_cur) + tail
}

fn is_reserved(w: &str) -> (r: bool)
    ensures
        r == reserved_words().contains(w@),
{
    str_eq(w, "!") || str_eq(w, "time") || str_eq(w, "if") || str_eq(w, "then") || str_eq(
        w,
        "elif",
    ) || str_eq(w, "else") || str_eq(w, "fi") || str_eq(w, "do") || str_eq(w, "done") || str_eq(
        w,
        "case",
    ) || str_eq(w, "esac") || str_eq(w, "while") || str_eq(w, "until") || str_eq(w, "for")
        || str_eq(w, "in") || str_eq(w, "select") || str_eq(w, "function") || str_eq(w, "coproc")
        || str_eq(w, "{") || str_eq(w, "}") || str_eq(w, "[[") || str_eq(w, "]]")
}

fn is_word_ok(w: &str) -> (r: bool)
    ensures
        r == word_ok(w@),
{
    let n = w.unicode_len();
    let mut i: usize = 0;
    while i < n
        invariant
            n == w@.len(),
            i <= n,
            forall|k: int| 0 <= k < i ==> w@[k] != '`',
            forall|k: int|
                0 <= k < i && k < n - 1 ==> !(((#[trigger] w@[k]) == '$' || w@[k] == '<'
                    || w@[k] == '>') && w@[k + 1] == '('),
        decreases n - i,
    {
        let c = w.get_char(i);
        if c == '`' {
            return false;
        }
        if (c == '$' || c == '<' || c == '>') && i + 1 < n && w.get_char(i + 1) == '(' {
            return false;
        }
        i = i + 1;
    }
    true
}

fn has_no_equals(w: &str) -> (r: bool)
    ensures
        r == forall|i: int| 0 <= i < w@.len() ==> w@[i] != '=',
{
    let n = w.unicode_len();
    let mut i: usize = 0;
    while i < n
        invariant
            n == w@.len(),
            i <= n,
            forall|k: int| 0 <= k < i ==> w@[k] != '=',
        decreases n - i,
    {
        if w.get_char(i) == '=' {
            return false;
        }
        i = i + 1;
    }
    true
}

/// Why an operator other than `|`, `&&` and `||` is refused.
pub open spec fn operator_refusal_text(op: Seq<char>) -> Seq<char> {
    if op == "("@ || op == ")"@ {
        "Subshells are not supported"@
    } else if op == "&"@ {
        "Background execution with '&' is not supported"@
    } else if op.contains('<') || op.contains('>') {
        "Redirections are not supported"@
    } else if op.contains(';') || op == "\n"@ {
        "Command sequences are not supported: only &&, || and | may join commands"@
    } else {
        "Unsupported operator: only &&, || and | may join commands"@
    }
}

/// Why a word holding a substitution is refused.
pub open spec fn word_refusal_text() -> Seq<char> {
    "Command substitution and process substitution are not supported"@
}

/// Why a word that begins a command cannot name its program.
pub open spec fn program_refusal_text(w: Seq<char>) -> Seq<char> {
    if !word_ok(w) {
        word_refusal_text()
    } else if w == "!"@ {
        "Negation with '!' is not supported"@
    } else if w == "time"@ {
        "Timed pipelines are not supported"@
    } else if reserved_words().contains(w) {
        "Compound commands are not supported"@
    } else {
        "Variable assignments are not supported"@
    }
}

/// Why token `i` is refused.
pub open spec fn token_refusal(toks: Seq<TokenView>, i: int) -> Seq<char> {
    if toks[i].0 {
        if !allowed_operator(toks[i].1) {
            operator_refusal_text(toks[i].1)
        } else {
            "An operator must follow a command"@
        }
    } else if starts_command(toks, i) {
        program_refusal_text(toks[i].1)
    } else {
        word_refusal_text()
    }
}

/// Token `i` is the first one that is refused.
pub open spec fn first_refused(toks: Seq<TokenView>, i: int) -> bool {
    &&& 0 <= i < toks.len()
    &&& !token_ok(toks, i)
    &&& forall|k: int| 0 <= k < i ==> token_ok(toks, k)
}

/// The message of a refused token sequence: the reason for its first refused
/// token; when every token is fine, the sequence is empty or ends in an operator.
pub open spec fn refusal_text(toks: Seq<TokenView>) -> Seq<char> {
    if exists|i: int| first_refused(toks, i) {
        token_refusal(toks, choose|i: int| first_refused(toks, i))
    } else {
        "Expected a command"@
    }
}

proof fn lemma_first_refused(toks: Seq<TokenView>, i: int)
    requires
        first_refused(toks, i),
    ensures
        refusal_text(toks) == token_refusal(toks, i),
{
    let c = choose|c: int| first_refused(toks, c);
    assert(first_refused(toks, c));
    if c < i {
        assert(token_ok(toks, c));
    } else if i < c {
        assert(token_ok(toks, i));
    }
}

fn operator_refusal(op: &str) -> (r: String)
    ensures
        r@ == operator_refusal_text(op@),
{
    if str_eq(op, "(") || str_eq(op, ")") {
        String::from_str("Subshells are not supported")
    } else if str_eq(op, "&") {
        String::from_str("Background execution with '&' is not supported")
    } else if contains_char(op, '<') || contains_char(op, '>') {
        String::from_str("Redirections are not supported")
    } else if contains_char(op, ';') || str_eq(op, "\n") {
        String::from_str("Command sequences are not supported: only &&, || and | may join commands")
    } else {
        String::from_str("Unsupported operator: only &&, || and | may join commands")
    }
}

fn program_refusal(w: &str) -> (r: String)
    ensures
        r@ == program_refusal_text(w@),
{
    if !is_word_ok(w) {
        String::from_str("Command substitution and process substitution are not supported")
    } else if str_eq(w, "!") {
        String::from_str("Negation with '!' is not supported")
    } else if str_eq(w, "time") {
        String::from_str("Timed pipelines are not supported")
    } else if is_reserved(w) {
        String::from_str("Compound commands are not supported")
    } else {
        String::from_str("Variable assignments are not supported")
    }
}

/// A command as a value: its program and its arguments.
pub type CommandView = (Seq<char>, Seq<Seq<char>>);

pub open spec fn command_view(c: Command) -> CommandView {
    (c.program@, views(c.args@))
}

pub open spec fn pipeline_view(p: Seq<Command>) -> Seq<CommandView> {
    p.map_values(|c: Command| command_view(c))
}

/// An expression as a value: its first pipeline and the chained ones.
pub open spec fn expression_view(e: Expression) -> (Seq<CommandView>, Seq<(AndOr, Seq<CommandView>)>) {
    (
        pipeline_view(e.first@),
        e.rest@.map_values(|x: (AndOr, Vec<Command>)| (x.0, pipeline_view(x.1@))),
    )
}

pub open spec fn is_andor(t: TokenView) -> bool {
    t == andor_token(AndOr::And) || t == andor_token(AndOr::Or)
}

proof fn lemma_command_words(c: Command)
    ensures
        forall|i: int| 0 <= i < command_tokens(c).len() ==> !(#[trigger] command_tokens(c)[i]).0,
        command_tokens(c).len() == 1 + c.args@.len(),
{
    let t = command_tokens(c);
    assert forall|i: int| 0 <= i < t.len() implies !(#[trigger] t[i]).0 by {
        if i > 0 {
            assert(t[i] == views(c.args@).map_values(|a: Seq<char>| (false, a))[i - 1]);
        }
    }
}

proof fn lemma_pipeline_no_andor(p: Seq<Command>)
    ensures
        forall|i: int| 0 <= i < pipeline_tokens(p).len() ==> !is_andor(#[trigger] pipeline_tokens(p)[i]),
    decreases p.len(),
{
    reveal_strlit("|");
    reveal_strlit("&&");
    reveal_strlit("||");
    if p.len() == 1 {
        lemma_command_words(p[0]);
    } else if p.len() >= 2 {
        lemma_pipeline_no_andor(p.drop_last());
        lemma_command_words(p.last());
        let a = pipeline_tokens(p.drop_last());
        let b = command_tokens(p.last());
        let t = pipeline_tokens(p);
        let h = a.push(pipe_token());
        assert(t == a + seq![pipe_token()] + b);
        assert(a + seq![pipe_token()] == h);
        assert(t == h + b);
        assert("|"@ != "&&"@ && "|"@ != "||"@) by {
            assert("|"@.len() != "&&"@.len());
            assert("|"@.len() != "||"@.len());
        }
        assert forall|i: int| 0 <= i < t.len() implies !is_andor(#[trigger] t[i]) by {
            if i < a.len() {
                assert(t[i] == h[i]);
                assert(h[i] == a[i]);
            } else if i == a.len() {
                assert(t[i] == h[i]);
                assert(h[i] == pipe_token());
            } else {
                assert(t[i] == b[i - h.len()]);
                assert(!b[i - h.len()].0);
            }
        }
    }
}

/// In a sequence split at its last marked token, the split is unique.
proof fn lemma_last_marker(
    a1: Seq<TokenView>,
    x1: TokenView,
    b1: Seq<TokenView>,
    a2: Seq<TokenView>,
    x2: TokenView,
    b2: Seq<TokenView>,
    m: spec_fn(TokenView) -> bool,
)
    requires
        a1 + seq![x1] + b1 == a2 + seq![x2] + b2,
        m(x1),
        m(x2),
        forall|i: int| 0 <= i < b1.len() ==> !m(#[trigger] b1[i]),
        forall|i: int| 0 <= i < b2.len() ==> !m(#[trigger] b2[i]),
    ensures
        a1 == a2,
        x1 == x2,
        b1 == b2,
{
    let h1 = a1.push(x1);
    let h2 = a2.push(x2);
    assert(a1 + seq![x1] == h1);
    assert(a2 + seq![x2] == h2);
    let t = h1 + b1;
    assert(t == h2 + b2);
    assert(t.len() == h1.len() + b1.len());
    assert(t.len() == h2.len() + b2.len());
    if a1.len() < a2.len() {
        let k = a2.len() as int;
        assert(k < h2.len());
        assert(t[k] == h2[k]);
        assert(h2[k] == x2);
        assert(k >= h1.len());
        assert(t[k] == b1[k - h1.len()]);
        assert(!m(b1[k - h1.len()]));
    } else if a2.len() < a1.len() {
        let k = a1.len() as int;
        assert(k < h1.len());
        assert(t[k] == h1[k]);
        assert(h1[k] == x1);
        assert(k >= h2.len());
        assert(t[k] == b2[k - h2.len()]);
        assert(!m(b2[k - h2.len()]));
    } else {
        assert(h1 == t.subrange(0, h1.len() as int));
        assert(h2 == t.subrange(0, h2.len() as int));
        assert(a1 == h1.drop_last());
        assert(a2 == h2.drop_last());
        assert(x1 == h1.last());
        assert(x2 == h2.last());
        assert(b1 == t.subrange(h1.len() as int, t.len() as int));
        assert(b2 == t.subrange(h2.len() as int, t.len() as int));
    }
}

proof fn lemma_command_injective(c1: Command, c2: Command)
    requires
        command_tokens(c1) == command_tokens(c2),
    ensures
        command_view(c1) == command_view(c2),
{
    let t = command_tokens(c1);
    let m1 = views(c1.args@).map_values(|a: Seq<char>| (false, a));
    let m2 = views(c2.args@).map_values(|a: Seq<char>| (false, a));
    assert(t[0] == (false, c1.program@));
    assert(command_tokens(c2)[0] == (false, c2.program@));
    assert(t.drop_first() == m1);
    assert(command_tokens(c2).drop_first() == m2);
    assert forall|i: int| 0 <= i < views(c1.args@).len() implies views(c1.args@)[i] == views(
        c2.args@,
    )[i] by {
        assert(m1[i] == (false, views(c1.args@)[i]));
        assert(m2[i] == (false, views(c2.args@)[i]));
    }
    assert(views(c1.args@) == views(c2.args@));
}

proof fn lemma_pipeline_view_push(p: Seq<Command>)
    requires
        p.len() > 0,
    ensures
        pipeline_view(p) == pipeline_view(p.drop_last()).push(command_view(p.last())),
{
    assert(pipeline_view(p) == pipeline_view(p.drop_last()).push(command_view(p.last())));
}

proof fn lemma_pipeline_injective(pa: Seq<Command>, pb: Seq<Command>)
    requires
        pa.len() > 0,
        pb.len() > 0,
        pipeline_tokens(pa) == pipeline_tokens(pb),
    ensures
        pipeline_view(pa) == pipeline_view(pb),
    decreases pa.len(),
{
    if pa.len() == 1 && pb.len() == 1 {
        lemma_command_injective(pa[0], pb[0]);
        assert(pipeline_view(pa) == pipeline_view(pb));
    } else if pa.len() == 1 {
        lemma_command_words(pa[0]);
        let k = pipeline_tokens(pb.drop_last()).len();
        assert(pipeline_tokens(pb)[k as int] == pipe_token());
        assert(false);
    } else if pb.len() == 1 {
        lemma_command_words(pb[0]);
        let k = pipeline_tokens(pa.drop_last()).len();
        assert(pipeline_tokens(pa)[k as int] == pipe_token());
        assert(false);
    } else {
        lemma_command_words(pa.last());
        lemma_command_words(pb.last());
        let m = |t: TokenView| t.0;
        lemma_last_marker(
            pipeline_tokens(pa.drop_last()),
            pipe_token(),
            command_tokens(pa.last()),
            pipeline_tokens(pb.drop_last()),
            pipe_token(),
            command_tokens(pb.last()),
            m,
        );
        lemma_pipeline_injective(pa.drop_last(), pb.drop_last());
        lemma_command_injective(pa.last(), pb.last());
        lemma_pipeline_view_push(pa);
        lemma_pipeline_view_push(pb);
    }
}

proof fn lemma_chain_injective(pa: Seq<(AndOr, Vec<Command>)>, pb: Seq<(AndOr, Vec<Command>)>)
    requires
        pa.len() > 0,
        pb.len() > 0,
        chain_well_formed(pa),
        chain_well_formed(pb),
        chain_tokens(pa) == chain_tokens(pb),
    ensures
        pa.len() == pb.len(),
        forall|j: int| 0 <= j < pa.len() ==> pipeline_view((#[trigger] pa[j]).1@) == pipeline_view(pb[j].1@),
        forall|j: int| 1 <= j < pa.len() ==> (#[trigger] pa[j]).0 == pb[j].0,
    decreases pa.len(),
{
    reveal_strlit("&&");
    reveal_strlit("||");
    assert(pa[0].1@.len() > 0);
    assert(pb[0].1@.len() > 0);
    if pa.len() == 1 && pb.len() == 1 {
        lemma_pipeline_injective(pa[0].1@, pb[0].1@);
    } else if pa.len() == 1 {
        lemma_pipeline_no_andor(pa[0].1@);
        let k = chain_tokens(pb.drop_last()).len();
        assert(chain_tokens(pb)[k as int] == andor_token(pb.last().0));
        assert(false);
    } else if pb.len() == 1 {
        lemma_pipeline_no_andor(pb[0].1@);
        let k = chain_tokens(pa.drop_last()).len();
        assert(chain_tokens(pa)[k as int] == andor_token(pa.last().0));
        assert(false);
    } else {
        lemma_pipeline_no_andor(pa.last().1@);
        lemma_pipeline_no_andor(pb.last().1@);
        lemma_last_marker(
            chain_tokens(pa.drop_last()),
            andor_token(pa.last().0),
            pipeline_tokens(pa.last().1@),
            chain_tokens(pb.drop_last()),
            andor_token(pb.last().0),
            pipeline_tokens(pb.last().1@),
            |t: TokenView| is_andor(t),
        );
        if pa.last().0 != pb.last().0 {
            assert(andor_token(AndOr::And).1[0] != andor_token(AndOr::Or).1[0]);
        }
        assert(pa.last().0 == pb.last().0);
        let q1 = pa.drop_last();
        let q2 = pb.drop_last();
        assert forall|j: int| 0 <= j < q1.len() implies {
            &&& (#[trigger] q1[j]).1@.len() > 0
            &&& forall|k: int| 0 <= k < q1[j].1@.len() ==> command_ok(#[trigger] q1[j].1@[k])
        } by {
            assert(q1[j] == pa[j]);
        }
        assert forall|j: int| 0 <= j < q2.len() implies {
            &&& (#[trigger] q2[j]).1@.len() > 0
            &&& forall|k: int| 0 <= k < q2[j].1@.len() ==> command_ok(#[trigger] q2[j].1@[k])
        } by {
            assert(q2[j] == pb[j]);
        }
        lemma_chain_injective(q1, q2);
        assert(pa.last().1@.len() > 0);
        assert(pb.last().1@.len() > 0);
        lemma_pipeline_injective(pa.last().1@, pb.last().1@);
        assert forall|j: int| 0 <= j < pa.len() implies pipeline_view((#[trigger] pa[j]).1@)
            == pipeline_view(pb[j].1@) by {
            if j < q1.len() {
                assert(q1[j] == pa[j]);
                assert(q2[j] == pb[j]);
            }
        }
        assert forall|j: int| 1 <= j < pa.len() implies (#[trigger] pa[j]).0 == pb[j].0 by {
            if j < q1.len() {
                assert(q1[j] == pa[j]);
                assert(q2[j] == pb[j]);
            }
        }
    }
}

/// Two well-formed expressions written with the same tokens are the same: the
/// expression a command line parses into is determined by its tokens.
pub proof fn lemma_parse_unique(e1: Expression, e2: Expression)
    requires
        expression_well_formed(e1),
        expression_well_formed(e2),
        expression_tokens(e1) == expression_tokens(e2),
    ensures
        expression_view(e1) == expression_view(e2),
{
    let c1 = chain_of(e1);
    let c2 = chain_of(e2);
    lemma_chain_injective(c1, c2);
    assert(c1[0] == (AndOr::And, e1.first));
    assert(c2[0] == (AndOr::And, e2.first));
    assert(pipeline_view(e1.first@) == pipeline_view(e2.first@));
    let r1 = e1.rest@.map_values(|x: (AndOr, Vec<Command>)| (x.0, pipeline_view(x.1@)));
    let r2 = e2.rest@.map_values(|x: (AndOr, Vec<Command>)| (x.0, pipeline_view(x.1@)));
    assert forall|j: int| 0 <= j < r1.len() implies r1[j] == r2[j] by {
        assert(c1[j + 1] == e1.rest@[j]);
        assert(c2[j + 1] == e2.rest@[j]);
    }
    assert(r1 == r2);
}

pub open spec fn tokens_of(toks: Seq<ShellToken>) -> Seq<TokenView> {
    toks.map_values(|t: ShellToken| token_view(t))
}

proof fn lemma_pipeline_push(cur: Seq<Command>, c: Command)
    ensures
        pipeline_tokens(cur.push(c)) == if cur.len() == 0 {
            command_tokens(c)
        } else {
            pipeline_tokens(cur) + seq![pipe_token()] + command_tokens(c)
        },
{
    assert(cur.push(c).drop_last() == cur);
}

proof fn lemma_chain_push(pipes: Seq<(AndOr, Vec<Command>)>, x: (AndOr, Vec<Command>))
    ensures
        chain_tokens(pipes.push(x)) == if pipes.len() == 0 {
            pipeline_tokens(x.1@)
        } else {
            chain_tokens(pipes) + seq![andor_token(x.0)] + pipeline_tokens(x.1@)
        },
{
    assert(pipes.push(x).drop_last() == pipes);
}

proof fn lemma_command_push_arg(program: String, args: Vec<String>, w: String, args2: Vec<String>)
    requires
        args2@ == args@.push(w),
    ensures
        command_tokens(Command { program, args: args2 }) == command_tokens(
            Command { program, args },
        ) + seq![(false, w@)],
{
    assert(views(args2@) == views(args@).push(w@));
    assert(views(args2@).map_values(|a: Seq<char>| (false, a)) == views(args@).map_values(
        |a: Seq<char>| (false, a),
    ).push((false, w@)));
}

/// Builds the expression that a token sequence writes, or refuses the sequence with
/// an error naming what is not supported.
pub fn parse_tokens(toks: &Vec<ShellToken>) -> (r: Result<Expression, ToolError>)
    ensures
        r is Ok <==> tokens_accepted(tokens_of(toks@)),
        r is Err ==> r->Err_0 is BashError,
        r matches Err(ToolError::BashError(m)) ==> m@ == refusal_text(tokens_of(toks@)),
        r matches Ok(e) ==> expression_tokens(e) == tokens_of(toks@) && expression_well_formed(e),
{
    let ghost tv = tokens_of(toks@);
    let mut pipes: Vec<(AndOr, Vec<Command>)> = Vec::new();
    let mut cur_op = AndOr::And;
    let mut cur: Vec<Command> = Vec::new();
    let mut has_cmd = false;
    let mut prog = String::new();
    let mut args: Vec<String> = Vec::new();
    let mut i: usize = 0;
    proof {
        assert(tv.subrange(0, 0) == partial_tokens(
            pipes@,
            cur_op,
            cur@,
            has_cmd,
            Command { program: prog, args },
        ));
    }
    while i < toks.len()
        invariant
            tv == tokens_of(toks@),
            i <= toks@.len(),
            tv.subrange(0, i as int) == partial_tokens(
                pipes@,
                cur_op,
                cur@,
                has_cmd,
                Command { program: prog, args },
            ),
            forall|k: int| 0 <= k < i ==> token_ok(tv, k),
            has_cmd == (i > 0 && !tv[i - 1].0),
            pipes@.len() > 0 ==> pipes@[0].0 == AndOr::And,
            pipes@.len() == 0 ==> cur_op == AndOr::And,
            chain_well_formed(pipes@),
            forall|k: int| 0 <= k < cur@.len() ==> command_ok(#[trigger] cur@[k]),
            has_cmd ==> command_ok(Command { program: prog, args }),
            !has_cmd ==> args@.len() == 0,
        decreases toks@.len() - i,
    {
        let t = &toks[i];
        proof {
            assert(tv[i as int] == token_view(toks@[i as int]));
            assert(tv.subrange(0, i + 1) == tv.subrange(0, i as int).push(tv[i as int]));
            reveal_strlit("|");
            reveal_strlit("&&");
            reveal_strlit("||");
        }
        if t.operator {
            let is_pipe = str_eq(t.text.as_str(), "|");
            let is_and = str_eq(t.text.as_str(), "&&");
            let is_or = str_eq(t.text.as_str(), "||");
            if !(is_pipe || is_and || is_or) {
                proof {
                    assert(!token_ok(tv, i as int));
                    lemma_first_refused(tv, i as int);
                }
                return Err(ToolError::BashError(operator_refusal(t.text.as_str())));
            }
            if !has_cmd {
                proof {
                    assert(!token_ok(tv, i as int));
                    lemma_first_refused(tv, i as int);
                }
                return Err(ToolError::BashError(String::from_str("An operator must follow a command")));
            }
            let ghost old_cur = cur@;
            let ghost old_pipes = pipes@;
            let c = Command { program: prog, args };
            let ghost gc = c;
            prog = String::new();
            args = Vec::new();
            cur.push(c);
            proof {
                lemma_pipeline_push(old_cur, gc);
            }
            if is_pipe {
                proof {
                    assert(tv.subrange(0, i + 1) == partial_tokens(
                        pipes@,
                        cur_op,
                        cur@,
                        false,
                        Command { program: prog, args },
                    ));
                }
            } else {
                let op = if is_and {
                    AndOr::And
                } else {
                    AndOr::Or
                };
                let done = cur;
                cur = Vec::new();
                let ghost entry = (cur_op, done);
                pipes.push((cur_op, done));
                proof {
                    lemma_chain_push(old_pipes, entry);
                    assert(pipes@ == old_pipes.push(entry));
                    assert(andor_token(op) == tv[i as int]);
                    assert(forall|k: int|
                        0 <= k < done@.len() ==> command_ok(#[trigger] done@[k]));
                    assert forall|j: int| 0 <= j < pipes@.len() implies {
                        &&& (#[trigger] pipes@[j]).1@.len() > 0
                        &&& forall|k: int|
                            0 <= k < pipes@[j].1@.len() ==> command_ok(#[trigger] pipes@[j].1@[k])
                    } by {
                        if j < old_pipes.len() {
                            assert(pipes@[j] == old_pipes[j]);
                        }
                    }
                }
                cur_op = op;
                proof {
                    assert(tv.subrange(0, i + 1) == partial_tokens(
                        pipes@,
                        cur_op,
                        cur@,
                        false,
                        Command { program: prog, args },
                    ));
                }
            }
            has_cmd = false;
        } else {
            if !has_cmd {
                if !is_word_ok(t.text.as_str()) || is_reserved(t.text.as_str()) || !has_no_equals(
                    t.text.as_str(),
                ) {
                    proof {
                        assert(!token_ok(tv, i as int));
                        lemma_first_refused(tv, i as int);
                    }
                    return Err(ToolError::BashError(program_refusal(t.text.as_str())));
                }
                let ghost old_cur = cur@;
                prog = t.text.clone();
                has_cmd = true;
                proof {
                    lemma_pipeline_push(old_cur, Command { program: prog, args });
                    assert(views(args@) == Seq::<Seq<char>>::empty());
                    assert(command_tokens(Command { program: prog, args }) == seq![
                        (false, prog@),
                    ]);
                    assert(tv.subrange(0, i + 1) == partial_tokens(
                        pipes@,
                        cur_op,
                        cur@,
                        true,
                        Command { program: prog, args },
                    ));
                }
            } else {
                if !is_word_ok(t.text.as_str()) {
                    proof {
                        assert(!token_ok(tv, i as int));
                        lemma_first_refused(tv, i as int);
                    }
                    return Err(
                        ToolError::BashError(
                            String::from_str(
                                "Command substitution and process substitution are not supported",
                            ),
                        ),
                    );
                }
                let ghost old_args = args;
                let w = t.text.clone();
                args.push(w);
                proof {
                    lemma_command_push_arg(prog, old_args, w, args);
                    lemma_pipeline_push(cur@, Command { program: prog, args: old_args });
                    lemma_pipeline_push(cur@, Command { program: prog, args });
                    assert(tv.subrange(0, i + 1) == partial_tokens(
                        pipes@,
                        cur_op,
                        cur@,
                        true,
                        Command { program: prog, args },
                    ));
                    assert(forall|k: int|
                        0 <= k < old_args@.len() ==> args@[k] == old_args@[k]);
                }
            }
        }
        i = i + 1;
    }
    if !has_cmd {
        proof {
            assert forall|k: int| !first_refused(tv, k) by {
                if 0 <= k < tv.len() {
                    assert(token_ok(tv, k));
                }
            }
        }
        return Err(ToolError::BashError(String::from_str("Expected a command")));
    }
    let ghost old_cur = cur@;
    let ghost old_pipes = pipes@;
    let c = Command { program: prog, args };
    cur.push(c);
    let ghost entry = (cur_op, cur);
    pipes.push((cur_op, cur));
    proof {
        lemma_pipeline_push(old_cur, c);
        lemma_chain_push(old_pipes, entry);
        assert(pipes@ == old_pipes.push(entry));
        assert(tv == tv.subrange(0, tv.len() as int));
        assert(chain_tokens(pipes@) == tv);
        assert forall|j: int| 0 <= j < pipes@.len() implies {
            &&& (#[trigger] pipes@[j]).1@.len() > 0
            &&& forall|k: int| 0 <= k < pipes@[j].1@.len() ==> command_ok(#[trigger] pipes@[j].1@[k])
        } by {
            if j < old_pipes.len() {
                assert(pipes@[j] == old_pipes[j]);
            }
        }
    }
    let ghost all = pipes@;
    let head = pipes.remove(0);
    let e = Expression { first: head.1, rest: pipes };
    proof {
        assert(chain_of(e) == all);
    }
    Ok(e)
}

/// Parses a shell command line into an expression: brush-parser lexes it, and the
/// tokens must form simple commands joined by `|`, `&&` and `||`. The expression is
/// the one written with exactly those tokens, which `lemma_parse_unique` shows to be
/// the only one. A refused line gets an error naming the first construct that is not
/// supported (`refusal_text`), or the lexer's own message.
pub fn parse_bash_expr(input: &str) -> (r: Result<Expression, ToolError>)
    ensures
        r is Ok <==> (shell_lex(input@) is Ok && tokens_accepted(shell_lex(input@)->Ok_0)),
        r is Err ==> r->Err_0 is BashError,
        r matches Err(ToolError::BashError(m)) ==> m@ == match shell_lex(input@) {
            Ok(toks) => refusal_text(toks),
            Err(lexer_message) => lexer_message,
        },
        r matches Ok(e) ==> {
            &&& expression_tokens(e) == shell_lex(input@)->Ok_0
            &&& expression_well_formed(e)
        },
{
    match lex(input) {
        Ok(toks) => parse_tokens(&toks),
        Err(msg) => Err(ToolError::BashError(msg)),
    }
}

} // verus!
