//! The token model: raw analyzer output and its classification.

use vstd::prelude::*;

verus! {

/// Number of fields in a complete morphological detail record.
pub const DETAIL_INFO_LEN: usize = 9;

/// The complete morphological record of a token, in the analyzer's field order.
#[derive(Debug, Clone)]
pub struct TokenDetailInfo {
    pub part_of_speech: String,
    pub sub_pos1: String,
    pub sub_pos2: String,
    pub sub_pos3: String,
    pub conjugation_type: String,
    pub conjugation_form: String,
    pub base_form: String,
    pub reading: String,
    pub pronunciation: String,
}

/// Mathematical model of a [`TokenDetailInfo`].
pub ghost struct TokenDetailInfoView {
    pub part_of_speech: Seq<char>,
    pub sub_pos1: Seq<char>,
    pub sub_pos2: Seq<char>,
    pub sub_pos3: Seq<char>,
    pub conjugation_type: Seq<char>,
    pub conjugation_form: Seq<char>,
    pub base_form: Seq<char>,
    pub reading: Seq<char>,
    pub pronunciation: Seq<char>,
}

impl TokenDetailInfoView {
    /// The record whose fields are the nine entries of `detail`, in order.
    pub open spec fn from_fields(detail: Seq<Seq<char>>) -> TokenDetailInfoView
        recommends
            detail.len() == DETAIL_INFO_LEN,
    {
        TokenDetailInfoView {
            part_of_speech: detail[0],
            sub_pos1: detail[1],
            sub_pos2: detail[2],
            sub_pos3: detail[3],
            conjugation_type: detail[4],
            conjugation_form: detail[5],
            base_form: detail[6],
            reading: detail[7],
            pronunciation: detail[8],
        }
    }

    /// The nine fields of the record as a list, in order.
    pub open spec fn fields(self) -> Seq<Seq<char>> {
        seq![
            self.part_of_speech,
            self.sub_pos1,
            self.sub_pos2,
            self.sub_pos3,
            self.conjugation_type,
            self.conjugation_form,
            self.base_form,
            self.reading,
            self.pronunciation,
        ]
    }
}

impl View for TokenDetailInfo {
    type V = TokenDetailInfoView;

    open spec fn view(&self) -> TokenDetailInfoView {
        TokenDetailInfoView {
            part_of_speech: self.part_of_speech@,
            sub_pos1: self.sub_pos1@,
            sub_pos2: self.sub_pos2@,
            sub_pos3: self.sub_pos3@,
            conjugation_type: self.conjugation_type@,
            conjugation_form: self.conjugation_form@,
            base_form: self.base_form@,
            reading: self.reading@,
            pronunciation: self.pronunciation@,
        }
    }
}

impl DeepView for TokenDetailInfo {
    type V = TokenDetailInfoView;

    open spec fn deep_view(&self) -> TokenDetailInfoView {
        self@
    }
}

impl TokenDetailInfo {
    /// Builds the record from a detail list of exactly nine entries.
    ///
    /// No entry is inspected: any string, the empty one included, is taken as
    /// it is.
    pub fn new(detail: &[String]) -> (info: Self)
        requires
            detail.len() == DETAIL_INFO_LEN,
        ensures
            info@ == TokenDetailInfoView::from_fields(detail.deep_view()),
            info@.fields() == detail.deep_view(),
    {
        TokenDetailInfo {
            part_of_speech: detail[0].clone(),
            sub_pos1: detail[1].clone(),
            sub_pos2: detail[2].clone(),
            sub_pos3: detail[3].clone(),
            conjugation_type: detail[4].clone(),
            conjugation_form: detail[5].clone(),
            base_form: detail[6].clone(),
            reading: detail[7].clone(),
            pronunciation: detail[8].clone(),
        }
    }
}

/// What is known of a token's grammar.
#[derive(Debug)]
pub enum TokenDetail {
    /// The analyzer gave the complete record.
    Info(TokenDetailInfo),
    /// The analyzer gave anything else: the token is unclassified.
    Unknown,
}

/// Mathematical model of a [`TokenDetail`].
pub ghost enum TokenDetailView {
    Info(TokenDetailInfoView),
    Unknown,
}

impl View for TokenDetail {
    type V = TokenDetailView;

    open spec fn view(&self) -> TokenDetailView {
        match self {
            TokenDetail::Info(info) => TokenDetailView::Info(info@),
            TokenDetail::Unknown => TokenDetailView::Unknown,
        }
    }
}

impl DeepView for TokenDetail {
    type V = TokenDetailView;

    open spec fn deep_view(&self) -> TokenDetailView {
        self@
    }
}

/// A morpheme as the analyzer reports it: its surface text and a detail list
/// of any length.
#[derive(Debug, Clone)]
pub struct RawToken {
    pub text: String,
    pub detail: Vec<String>,
}

/// Mathematical model of a [`RawToken`].
pub ghost struct RawTokenView {
    pub text: Seq<char>,
    pub detail: Seq<Seq<char>>,
}

impl View for RawToken {
    type V = RawTokenView;

    open spec fn view(&self) -> RawTokenView {
        RawTokenView { text: self.text@, detail: self.detail.deep_view() }
    }
}

impl DeepView for RawToken {
    type V = RawTokenView;

    open spec fn deep_view(&self) -> RawTokenView {
        self@
    }
}

/// A classified morpheme: surface text and what is known of its grammar.
#[derive(Debug)]
pub struct Token {
    pub text: String,
    pub detail: TokenDetail,
}

/// Mathematical model of a [`Token`].
pub ghost struct TokenView {
    pub text: Seq<char>,
    pub detail: TokenDetailView,
}

impl View for Token {
    type V = TokenView;

    open spec fn view(&self) -> TokenView {
        TokenView { text: self.text@, detail: self.detail@ }
    }
}

impl DeepView for Token {
    type V = TokenView;

    open spec fn deep_view(&self) -> TokenView {
        self@
    }
}

/// The classification of a detail list: the complete record when the list has
/// exactly nine entries, unclassified for every other length.
pub open spec fn classify_detail(detail: Seq<Seq<char>>) -> TokenDetailView {
    if detail.len() == DETAIL_INFO_LEN {
        TokenDetailView::Info(TokenDetailInfoView::from_fields(detail))
    } else {
        TokenDetailView::Unknown
    }
}

/// The classified token of a raw one: the same surface text, the detail list
/// classified.
pub open spec fn classify(raw: RawTokenView) -> TokenView {
    TokenView { text: raw.text, detail: classify_detail(raw.detail) }
}

/// The sentence that raw tokens spell: their surface texts, one after another.
pub open spec fn raw_surface(raw: Seq<RawTokenView>) -> Seq<char> {
    raw.map_values(|r: RawTokenView| r.text).flatten()
}

/// The sentence that classified tokens spell: their surface texts, one after
/// another.
pub open spec fn surface(tokens: Seq<TokenView>) -> Seq<char> {
    tokens.map_values(|token: TokenView| token.text).flatten()
}

/// Classification keeps the sentence: the classified tokens spell what the raw
/// tokens spell, so a raw stream that covers a sentence without gaps is
/// classified into one that does.
pub proof fn lemma_classify_keeps_surface(raw: Seq<RawTokenView>)
    ensures
        surface(raw.map_values(|r: RawTokenView| classify(r))) == raw_surface(raw),
{
    assert(raw.map_values(|r: RawTokenView| classify(r)).map_values(|token: TokenView| token.text)
        =~= raw.map_values(|r: RawTokenView| r.text));
}

impl TokenDetail {
    /// Classifies the detail list of a raw token.
    pub fn new(token: &RawToken) -> (detail: Self)
        ensures
            detail@ == classify_detail(token@.detail),
    {
        if token.detail.len() == DETAIL_INFO_LEN {
            TokenDetail::Info(TokenDetailInfo::new(token.detail.as_slice()))
        } else {
            TokenDetail::Unknown
        }
    }
}

impl Token {
    /// Classifies a raw token, keeping its surface text as it is.
    pub fn new(word: &RawToken) -> (token: Self)
        ensures
            token@ == classify(word@),
    {
        Token { text: word.text.clone(), detail: TokenDetail::new(word) }
    }
}

/// Classifies the analyzer's output for a sentence, token by token.
///
/// The result has one token for each raw token, in the same order; none is
/// dropped, merged or reordered.
pub fn classify_all(raw: &[RawToken]) -> (tokens: Vec<Token>)
    ensures
        tokens.deep_view() == raw.deep_view().map_values(|r: RawTokenView| classify(r)),
        surface(tokens.deep_view()) == raw_surface(raw.deep_view()),
{
    let mut tokens: Vec<Token> = Vec::new();
    let mut i: usize = 0;
    while i < raw.len()
        invariant
            i <= raw.len(),
            tokens.len() == i,
            forall|k: int| 0 <= k < i ==> (#[trigger] tokens[k])@ == classify(raw[k]@),
        decreases raw.len() - i,
    {
        tokens.push(Token::new(&raw[i]));
        i += 1;
    }
    proof {
        assert(tokens.deep_view() =~= raw.deep_view().map_values(|r: RawTokenView| classify(r)));
        lemma_classify_keeps_surface(raw.deep_view());
    }
    tokens
}

} // verus!
