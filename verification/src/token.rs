//! Call tokens: the typed values a contract invocation is handed.
//!
//! A token is a boolean, an unsigned 64-bit integer, a 160-bit address, a
//! 256-bit unsigned integer, or an ordered sequence of tokens. The chain
//! client consumes the tokens; the library never retains them.

use vstd::prelude::*;

verus! {

/// A 160-bit account address, held as its 20 bytes.
#[derive(Debug, PartialEq, Eq)]
pub struct Address {
    pub bytes: Vec<u8>,
}

impl View for Address {
    type V = Seq<u8>;

    open spec fn view(&self) -> Seq<u8> {
        self.bytes@
    }
}

impl Address {
    /// A well-formed address holds exactly 20 bytes.
    pub open spec fn wf(&self) -> bool {
        self.bytes@.len() == 20
    }
}

/// A 256-bit unsigned integer, held as its 32 bytes, most significant first.
#[derive(Debug, PartialEq, Eq)]
pub struct Uint256 {
    pub bytes: Vec<u8>,
}

impl View for Uint256 {
    type V = Seq<u8>;

    open spec fn view(&self) -> Seq<u8> {
        self.bytes@
    }
}

impl Uint256 {
    /// A well-formed 256-bit integer holds exactly 32 bytes.
    pub open spec fn wf(&self) -> bool {
        self.bytes@.len() == 32
    }
}

/// A typed call parameter.
#[derive(Debug, PartialEq)]
pub enum Token {
    Bool(bool),
    Uint64(u64),
    Address(Address),
    Uint256(Uint256),
    Arr(Vec<Token>),
}

/// The mathematical view of a `Token`.
pub enum TokenView {
    Bool(bool),
    Uint64(u64),
    Address(Seq<u8>),
    Uint256(Seq<u8>),
    Arr(Seq<TokenView>),
}

/// The view of a token: each node mapped to its mathematical form.
pub open spec fn tview(t: Token) -> TokenView
    decreases t,
{
    match t {
        Token::Bool(b) => TokenView::Bool(b),
        Token::Uint64(u) => TokenView::Uint64(u),
        Token::Address(a) => TokenView::Address(a@),
        Token::Uint256(u) => TokenView::Uint256(u@),
        Token::Arr(ts) => TokenView::Arr(tview_seq(ts@)),
    }
}

/// The views of a sequence of tokens, element for element.
pub open spec fn tview_seq(s: Seq<Token>) -> Seq<TokenView>
    decreases s,
{
    if s.len() == 0 {
        Seq::empty()
    } else {
        seq![tview(s[0])] + tview_seq(s.subrange(1, s.len() as int))
    }
}

impl View for Token {
    type V = TokenView;

    open spec fn view(&self) -> TokenView {
        tview(*self)
    }
}

/// `tview_seq` keeps the length and maps each element to its view.
pub proof fn lemma_tview_seq(s: Seq<Token>)
    ensures
        tview_seq(s).len() == s.len(),
        forall|i: int| 0 <= i < s.len() ==> tview_seq(s)[i] == tview(s[i]),
    decreases s.len(),
{
    if s.len() > 0 {
        lemma_tview_seq(s.subrange(1, s.len() as int));
        assert forall|i: int| 0 <= i < s.len() implies tview_seq(s)[i] == tview(s[i]) by {
            if i > 0 {
                assert(s.subrange(1, s.len() as int)[i - 1] == s[i]);
            }
        }
    }
}

/// Appending one token to a vector appends its view to the sequence view.
pub proof fn lemma_tview_seq_push(s: Seq<Token>, t: Token)
    ensures
        tview_seq(s.push(t)) == tview_seq(s).push(tview(t)),
    decreases s.len(),
{
    let p = s.push(t);
    if s.len() == 0 {
        assert(p.subrange(1, p.len() as int) =~= Seq::<Token>::empty());
        assert(tview_seq(p.subrange(1, p.len() as int)) == Seq::<TokenView>::empty());
        assert(p[0] == t);
        assert(tview_seq(p) =~= tview_seq(s).push(tview(t)));
    } else {
        let ssub = s.subrange(1, s.len() as int);
        lemma_tview_seq_push(ssub, t);
        assert(p.subrange(1, p.len() as int) =~= ssub.push(t));
        assert(p[0] == s[0]);
        assert(tview_seq(p) == seq![tview(s[0])] + tview_seq(ssub).push(tview(t)));
        assert(tview_seq(s) == seq![tview(s[0])] + tview_seq(ssub));
        assert(seq![tview(s[0])] + tview_seq(ssub).push(tview(t)) =~= (seq![tview(s[0])]
            + tview_seq(ssub)).push(tview(t)));
    }
}

} // verus!
