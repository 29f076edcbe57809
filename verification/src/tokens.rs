//! The token stream of the `quote` crate, and what each way of appending to it
//! does to the text it holds.

use vstd::prelude::*;

verus! {

#[verifier::external_type_specification]
#[verifier::external_body]
pub struct ExTokens(quote::Tokens);

/// The source text that a token stream holds.
pub uninterp spec fn tokens_text(t: quote::Tokens) -> Seq<char>;

/// The string literal that `quote` writes for a string in which some
/// character needs a Unicode escape.
pub uninterp spec fn escaped_literal(s: Seq<char>) -> Seq<char>;

/// Whether a character is written in a string literal without a Unicode
/// escape: printable ASCII, tab, carriage return, line feed and the
/// character zero.
pub open spec fn is_plain(c: char) -> bool {
    c == '\0' || c == '\t' || c == '\r' || c == '\n' || ' ' <= c <= '~'
}

/// Whether every character of `s` is plain.
pub open spec fn is_plain_text(s: Seq<char>) -> bool {
    forall|i: int| 0 <= i < s.len() ==> is_plain(#[trigger] s[i])
}

/// What stands for a plain character inside a string literal: a backslash
/// and a letter or digit for tab, carriage return, line feed and zero, a
/// backslash before a double quote or a backslash, and any other character
/// as it is.
pub open spec fn literal_char(c: char) -> Seq<char>
    recommends
        is_plain(c),
{
    if c == '\0' {
        seq!['\\', '0']
    } else if c == '\t' {
        seq!['\\', 't']
    } else if c == '\r' {
        seq!['\\', 'r']
    } else if c == '\n' {
        seq!['\\', 'n']
    } else if c == '"' || c == '\\' {
        seq!['\\', c]
    } else {
        seq![c]
    }
}

/// The characters of `s`, each as it stands inside a string literal.
pub open spec fn literal_chars(s: Seq<char>) -> Seq<char>
    recommends
        is_plain_text(s),
    decreases s.len(),
{
    if s.len() == 0 {
        Seq::empty()
    } else {
        literal_chars(s.drop_last()) + literal_char(s.last())
    }
}

/// The string literal of a plain text: its characters between double
/// quotes.
pub open spec fn plain_literal(s: Seq<char>) -> Seq<char>
    recommends
        is_plain_text(s),
{
    seq!['"'] + literal_chars(s) + seq!['"']
}

/// The string literal that `quote` writes for a string.
pub open spec fn str_literal(s: Seq<char>) -> Seq<char> {
    if is_plain_text(s) {
        plain_literal(s)
    } else {
        escaped_literal(s)
    }
}

/// The text after `token` has been appended to `text`: a single space parts
/// the two, unless one of them is empty.
pub open spec fn joined(text: Seq<char>, token: Seq<char>) -> Seq<char> {
    if text.len() == 0 || token.len() == 0 {
        text + token
    } else {
        text + seq![' '] + token
    }
}

/// The text of a sequence of tokens appended one after the other to an empty
/// stream.
pub open spec fn render(toks: Seq<Seq<char>>) -> Seq<char>
    decreases toks.len(),
{
    if toks.len() == 0 {
        Seq::empty()
    } else {
        joined(render(toks.drop_last()), toks.last())
    }
}

/// The decimal digit `d`.
pub open spec fn digit(d: nat) -> char
    recommends
        d < 10,
{
    seq!['0', '1', '2', '3', '4', '5', '6', '7', '8', '9'][d as int]
}

/// The decimal numeral of `n`, without leading zeros.
pub open spec fn decimal(n: nat) -> Seq<char>
    decreases n,
{
    if n < 10 {
        seq![digit(n)]
    } else {
        decimal(n / 10).push(digit(n % 10))
    }
}

/// The literal that `quote` writes for a `usize`: its numeral with the type
/// as suffix.
pub open spec fn usize_literal(n: nat) -> Seq<char> {
    decimal(n) + "usize"@
}

/// `quote::Tokens::new`: a stream that holds no text.
#[verifier::external_body]
pub(crate) fn new_tokens() -> (t: quote::Tokens)
    ensures
        tokens_text(t) == Seq::<char>::empty(),
{
    quote::Tokens::new()
}

/// `quote::Tokens::append`: the token is added at the end of the text, after
/// a space where both the text so far and the token are not empty.
#[verifier::external_body]
pub(crate) fn append_token(out: &mut quote::Tokens, token: &str)
    ensures
        tokens_text(*final(out)) == joined(tokens_text(*old(out)), token@),
{
    out.append(token)
}

/// `quote::ToTokens::to_tokens` of a `str`: the string is appended as one
/// token, written as a string literal. `quote` writes `\0` for the character
/// zero and a single quote as it is, and has `char::escape_default` write
/// every other character; what that gives for a plain character is stated,
/// what it gives for the others is only named.
#[verifier::external_body]
pub(crate) fn append_str_literal(out: &mut quote::Tokens, s: &str)
    ensures
        tokens_text(*final(out)) == joined(
            tokens_text(*old(out)),
            if is_plain_text(s@) {
                plain_literal(s@)
            } else {
                escaped_literal(s@)
            },
        ),
{
    quote::ToTokens::to_tokens(s, out)
}

/// `quote::ToTokens::to_tokens` of a `usize`: the number is appended as one
/// token, in decimal and followed by `usize`.
#[verifier::external_body]
pub(crate) fn append_usize_literal(out: &mut quote::Tokens, n: usize)
    ensures
        tokens_text(*final(out)) == joined(tokens_text(*old(out)), usize_literal(n as nat)),
{
    quote::ToTokens::to_tokens(&n, out)
}

/// `quote::ToTokens::to_tokens` of a `quote::Tokens`: the whole text of
/// `part` is appended as if it were one token.
#[verifier::external_body]
pub(crate) fn append_stream(out: &mut quote::Tokens, part: &quote::Tokens)
    ensures
        tokens_text(*final(out)) == joined(tokens_text(*old(out)), tokens_text(*part)),
{
    quote::ToTokens::to_tokens(part, out)
}

/// `Clone::clone` of a `quote::Tokens`: a stream with the same text.
#[verifier::external_body]
pub(crate) fn clone_tokens(t: &quote::Tokens) -> (c: quote::Tokens)
    ensures
        tokens_text(c) == tokens_text(*t),
{
    t.clone()
}

/// `quote::Tokens::into_string`: the text that the stream holds.
#[verifier::external_body]
pub(crate) fn into_text(t: quote::Tokens) -> (text: String)
    ensures
        text@ == tokens_text(t),
{
    t.into_string()
}

/// Appending a token to a rendered sequence renders the longer sequence.
pub proof fn lemma_render_push(toks: Seq<Seq<char>>, token: Seq<char>)
    ensures
        render(toks.push(token)) == joined(render(toks), token),
{
    assert(toks.push(token).drop_last() =~= toks);
}

/// Appending is associative: it does not matter whether tokens reach a
/// stream one by one or as the text of a stream of their own.
pub proof fn lemma_joined_assoc(a: Seq<char>, b: Seq<char>, c: Seq<char>)
    ensures
        joined(joined(a, b), c) =~= joined(a, joined(b, c)),
{
}

/// The text of two sequences of tokens, one after the other, is the text of
/// the first with the text of the second appended as one token.
pub proof fn lemma_render_concat(a: Seq<Seq<char>>, b: Seq<Seq<char>>)
    ensures
        render(a + b) == joined(render(a), render(b)),
    decreases b.len(),
{
    if b.len() == 0 {
        assert(a + b =~= a);
        assert(joined(render(a), render(b)) =~= render(a));
    } else {
        assert((a + b).drop_last() =~= a + b.drop_last());
        assert((a + b).last() == b.last());
        lemma_render_concat(a, b.drop_last());
        lemma_joined_assoc(render(a), render(b.drop_last()), b.last());
    }
}

/// Whether each stream of `streams` holds the text of the tokens at the same
/// place in `parts`.
pub open spec fn rendered(streams: Seq<quote::Tokens>, parts: Seq<Seq<Seq<char>>>) -> bool {
    &&& streams.len() == parts.len()
    &&& forall|k: int|
        0 <= k < streams.len() ==> tokens_text(#[trigger] streams[k]) == render(parts[k])
}

/// A token stream under construction, together with the tokens that have
/// been written to it.
pub(crate) struct Writer {
    out: quote::Tokens,
    log: Ghost<Seq<Seq<char>>>,
}

impl Writer {
    /// The tokens written so far.
    pub closed spec fn written(&self) -> Seq<Seq<char>> {
        self.log@
    }

    /// The stream holds the text of the tokens written so far.
    pub closed spec fn wf(&self) -> bool {
        tokens_text(self.out) == render(self.log@)
    }

    /// A writer to which nothing has been written.
    pub(crate) fn new() -> (w: Self)
        ensures
            w.wf(),
            w.written() == Seq::<Seq<char>>::empty(),
    {
        Writer { out: new_tokens(), log: Ghost(Seq::empty()) }
    }

    /// Writes one token.
    pub(crate) fn token(&mut self, token: &str)
        requires
            old(self).wf(),
        ensures
            final(self).wf(),
            final(self).written() == old(self).written().push(token@),
    {
        proof {
            lemma_render_push(self.log@, token@);
        }
        append_token(&mut self.out, token);
        self.log = Ghost(self.log@.push(token@));
    }

    /// Writes a string as a string literal.
    pub(crate) fn literal(&mut self, s: &str)
        requires
            old(self).wf(),
        ensures
            final(self).wf(),
            final(self).written() == old(self).written().push(str_literal(s@)),
    {
        proof {
            lemma_render_push(self.log@, str_literal(s@));
        }
        append_str_literal(&mut self.out, s);
        self.log = Ghost(self.log@.push(str_literal(s@)));
    }

    /// Writes a number as a `usize` literal.
    pub(crate) fn count(&mut self, n: usize)
        requires
            old(self).wf(),
        ensures
            final(self).wf(),
            final(self).written() == old(self).written().push(usize_literal(n as nat)),
    {
        proof {
            lemma_render_push(self.log@, usize_literal(n as nat));
        }
        append_usize_literal(&mut self.out, n);
        self.log = Ghost(self.log@.push(usize_literal(n as nat)));
    }

    /// Writes the tokens `toks`, which `part` holds.
    pub(crate) fn stream(&mut self, part: &quote::Tokens, Ghost(toks): Ghost<Seq<Seq<char>>>)
        requires
            old(self).wf(),
            tokens_text(*part) == render(toks),
        ensures
            final(self).wf(),
            final(self).written() == old(self).written() + toks,
    {
        proof {
            lemma_render_concat(self.log@, toks);
        }
        append_stream(&mut self.out, part);
        self.log = Ghost(self.log@ + toks);
    }

    /// The stream with all that was written.
    pub(crate) fn finish(self) -> (out: quote::Tokens)
        requires
            self.wf(),
        ensures
            tokens_text(out) == render(self.written()),
    {
        self.out
    }
}

} // verus!
