//! The two transformations over a classified token stream.

use crate::tokenizer::{surface, Token, TokenDetail, TokenDetailView, TokenView};
use vstd::prelude::*;

verus! {

/// How a hidden word is written.
pub enum Mask {
    /// A fixed word, whatever the length of the hidden one.
    WordByWord(String),
    /// One character for each character of the hidden word.
    CharByChar(char),
}

/// Mathematical model of a [`Mask`].
pub ghost enum MaskView {
    WordByWord(Seq<char>),
    CharByChar(char),
}

impl View for Mask {
    type V = MaskView;

    open spec fn view(&self) -> MaskView {
        match self {
            Mask::WordByWord(w) => MaskView::WordByWord(w@),
            Mask::CharByChar(c) => MaskView::CharByChar(*c),
        }
    }
}

/// The text made of `n` times the character `c`.
pub open spec fn repeated(c: char, n: nat) -> Seq<char> {
    Seq::new(n, |i: int| c)
}

impl MaskView {
    /// What stands in place of `word` once it is hidden.
    ///
    /// The length of `word` is its number of characters, not of bytes.
    pub open spec fn apply(self, word: Seq<char>) -> Seq<char> {
        match self {
            MaskView::WordByWord(w) => w,
            MaskView::CharByChar(c) => repeated(c, word.len()),
        }
    }
}

/// The part of speech of nouns.
pub open spec fn noun() -> Seq<char> {
    "名詞"@
}

/// The part of speech of verbs.
pub open spec fn verb() -> Seq<char> {
    "動詞"@
}

/// The part of speech of adjectives.
pub open spec fn adjective() -> Seq<char> {
    "形容詞"@
}

/// A content word is a classified token that is a noun, a verb or an adjective.
pub open spec fn is_content_word(token: TokenView) -> bool {
    match token.detail {
        TokenDetailView::Info(info) => {
            info.part_of_speech == noun() || info.part_of_speech == verb()
                || info.part_of_speech == adjective()
        },
        TokenDetailView::Unknown => false,
    }
}

/// The surface text of the last content word of the sentence, or the empty
/// text where the sentence has none.
pub open spec fn parrot_word(tokens: Seq<TokenView>) -> Seq<char>
    decreases tokens.len(),
{
    if tokens.len() == 0 {
        Seq::empty()
    } else if is_content_word(tokens.last()) {
        tokens.last().text
    } else {
        parrot_word(tokens.drop_last())
    }
}

/// The parrot's line for a word: the word twice, each time followed by an
/// exclamation mark, with one space between the two.
pub open spec fn parrot_line(word: Seq<char>) -> Seq<char> {
    word + seq!['!', ' '] + word + seq!['!']
}

/// A sentence without a content word leaves the parrot no word to echo: its
/// line is then `! !`.
pub proof fn lemma_parrot_without_content_word(tokens: Seq<TokenView>)
    requires
        forall|i: int| 0 <= i < tokens.len() ==> !is_content_word(#[trigger] tokens[i]),
    ensures
        parrot_word(tokens) == Seq::<char>::empty(),
        parrot_line(parrot_word(tokens)) == "! !"@,
    decreases tokens.len(),
{
    if tokens.len() > 0 {
        lemma_parrot_without_content_word(tokens.drop_last());
    }
    reveal_strlit("! !");
}

/// The parrot echoes the content word that no other content word follows:
/// tokens after it, classified or not, do not change the choice, and neither
/// do the content words before it.
pub proof fn lemma_parrot_last_content_word(tokens: Seq<TokenView>, i: int)
    requires
        0 <= i < tokens.len(),
        is_content_word(tokens[i]),
        forall|j: int| i < j < tokens.len() ==> !is_content_word(#[trigger] tokens[j]),
    ensures
        parrot_word(tokens) == tokens[i].text,
    decreases tokens.len(),
{
    if i < tokens.len() - 1 {
        lemma_parrot_last_content_word(tokens.drop_last(), i);
    }
}

/// Whether `masquerade` hides the token: an unclassified token always, a
/// classified one when its part of speech is among `targets`.
pub open spec fn is_hidden(token: TokenView, targets: Seq<Seq<char>>) -> bool {
    match token.detail {
        TokenDetailView::Info(info) => targets.contains(info.part_of_speech),
        TokenDetailView::Unknown => true,
    }
}

/// What `masquerade` writes for one token.
pub open spec fn span(token: TokenView, mask: MaskView, targets: Seq<Seq<char>>) -> Seq<char> {
    if is_hidden(token, targets) {
        mask.apply(token.text)
    } else {
        token.text
    }
}

/// What `masquerade` writes for each token of the sentence, in order.
pub open spec fn spans(
    tokens: Seq<TokenView>,
    mask: MaskView,
    targets: Seq<Seq<char>>,
) -> Seq<Seq<char>> {
    tokens.map_values(|token: TokenView| span(token, mask, targets))
}

/// `masquerade` writes one span for each token, so the spans can be counted
/// off against the tokens of the sentence.
pub proof fn lemma_one_span_per_token(
    tokens: Seq<TokenView>,
    mask: MaskView,
    targets: Seq<Seq<char>>,
)
    ensures
        spans(tokens, mask, targets).len() == tokens.len(),
{
}

/// Under a character mask, the span of a hidden token is the mask character
/// repeated once for each character of the token's text: as many characters
/// as the text has, however many bytes they take.
pub proof fn lemma_hidden_span_char_by_char(
    tokens: Seq<TokenView>,
    c: char,
    targets: Seq<Seq<char>>,
    i: int,
)
    requires
        0 <= i < tokens.len(),
        is_hidden(tokens[i], targets),
    ensures
        spans(tokens, MaskView::CharByChar(c), targets)[i] == repeated(c, tokens[i].text.len()),
        spans(tokens, MaskView::CharByChar(c), targets)[i].len() == tokens[i].text.len(),
{
}

/// Under a word mask, the span of a hidden token is the mask word itself,
/// whatever the length of the token's text.
pub proof fn lemma_hidden_span_word_by_word(
    tokens: Seq<TokenView>,
    w: Seq<char>,
    targets: Seq<Seq<char>>,
    i: int,
)
    requires
        0 <= i < tokens.len(),
        is_hidden(tokens[i], targets),
    ensures
        spans(tokens, MaskView::WordByWord(w), targets)[i] == w,
{
}

/// A classified token whose part of speech is not among the targets keeps its
/// text: its span is the text unchanged, at the token's own position.
pub proof fn lemma_other_tokens_pass_through(
    tokens: Seq<TokenView>,
    mask: MaskView,
    targets: Seq<Seq<char>>,
    i: int,
)
    requires
        0 <= i < tokens.len(),
        tokens[i].detail matches TokenDetailView::Info(info) && !targets.contains(
            info.part_of_speech,
        ),
    ensures
        spans(tokens, mask, targets)[i] == tokens[i].text,
{
}

/// An unclassified token is hidden whatever the targets are: its span is the
/// mask applied to its text, never the text passed through.
pub proof fn lemma_unclassified_tokens_are_hidden(
    tokens: Seq<TokenView>,
    mask: MaskView,
    targets: Seq<Seq<char>>,
    i: int,
)
    requires
        0 <= i < tokens.len(),
        tokens[i].detail is Unknown,
    ensures
        is_hidden(tokens[i], targets),
        spans(tokens, mask, targets)[i] == mask.apply(tokens[i].text),
{
}

/// A character mask keeps the width of the sentence: what `masquerade` writes
/// has as many characters as the sentence itself, whichever tokens are hidden.
pub proof fn lemma_char_mask_keeps_width(tokens: Seq<TokenView>, c: char, targets: Seq<Seq<char>>)
    ensures
        spans(tokens, MaskView::CharByChar(c), targets).flatten().len() == surface(tokens).len(),
    decreases tokens.len(),
{
    let mask = MaskView::CharByChar(c);
    if tokens.len() > 0 {
        let rest = tokens.drop_first();
        lemma_char_mask_keeps_width(rest, c, targets);
        assert(spans(tokens, mask, targets).drop_first() =~= spans(rest, mask, targets));
        assert(tokens.map_values(|token: TokenView| token.text).drop_first() =~= rest.map_values(
            |token: TokenView| token.text,
        ));
    }
}

/// Where no token of the sentence is hidden, `masquerade` writes the sentence
/// as it stands.
pub proof fn lemma_nothing_hidden_keeps_sentence(
    tokens: Seq<TokenView>,
    mask: MaskView,
    targets: Seq<Seq<char>>,
)
    requires
        forall|i: int| 0 <= i < tokens.len() ==> !is_hidden(#[trigger] tokens[i], targets),
    ensures
        spans(tokens, mask, targets).flatten() == surface(tokens),
{
    assert(spans(tokens, mask, targets) =~= tokens.map_values(|token: TokenView| token.text));
}

/// Rewrites sentences from their classified tokens.
pub struct KotobaPlayer {
    /// The parts of speech that `masquerade` hides.
    pub targets: Vec<String>,
}

impl View for KotobaPlayer {
    type V = Seq<Seq<char>>;

    open spec fn view(&self) -> Seq<Seq<char>> {
        self.targets.deep_view()
    }
}

/// Appends one character to the text, by `String::push`.
///
/// Its contract is taken on trust, not proved: the text afterwards is the
/// text before with `c` added at its end.
#[verifier::external_body]
fn push_char(text: &mut String, c: char)
    ensures
        final(text)@ == old(text)@.push(c),
{
    text.push(c);
}

impl KotobaPlayer {
    /// A player that hides nouns.
    pub fn new() -> (player: Self)
        ensures
            player@ == seq![noun()],
    {
        let mut targets: Vec<String> = Vec::new();
        targets.push("名詞".to_owned());
        KotobaPlayer { targets }
    }

    /// A player that hides the given parts of speech.
    pub fn with_targets(targets: Vec<String>) -> (player: Self)
        ensures
            player@ == targets.deep_view(),
    {
        KotobaPlayer { targets }
    }

    /// Whether the part of speech is among those that this player hides.
    fn is_target(&self, part_of_speech: &String) -> (found: bool)
        ensures
            found == self@.contains(part_of_speech@),
    {
        let mut i: usize = 0;
        while i < self.targets.len()
            invariant
                i <= self.targets.len(),
                forall|k: int| 0 <= k < i ==> (#[trigger] self@[k]) != part_of_speech@,
            decreases self.targets.len() - i,
        {
            if self.targets[i] == *part_of_speech {
                assert(self@[i as int] == part_of_speech@);
                return true;
            }
            i += 1;
        }
        false
    }

    /// The text that hides `word` under `mask`.
    pub fn mask_word(word: &str, mask: &Mask) -> (masked: String)
        ensures
            masked@ == mask@.apply(word@),
    {
        match mask {
            Mask::CharByChar(c) => {
                let n = word.unicode_len();
                let mut masked = String::new();
                let mut i: usize = 0;
                while i < n
                    invariant
                        i <= n,
                        n == word@.len(),
                        masked@ == repeated(*c, i as nat),
                    decreases n - i,
                {
                    push_char(&mut masked, *c);
                    i += 1;
                }
                masked
            },
            Mask::WordByWord(w) => w.clone(),
        }
    }

    /// Echoes the last content word of the sentence, twice.
    ///
    /// Unclassified tokens are passed over. Where the sentence has no content
    /// word, the echoed word is empty and the line is `! !`.
    pub fn parrot(&self, tokens: &[Token]) -> (line: String)
        ensures
            line@ == parrot_line(parrot_word(tokens.deep_view())),
            (forall|i: int| 0 <= i < tokens.len() ==> !is_content_word(#[trigger] tokens[i]@))
                ==> line@ == "! !"@,
            forall|i: int|
                0 <= i < tokens.len() && is_content_word(#[trigger] tokens[i]@) && (forall|j: int|
                    i < j < tokens.len() ==> !is_content_word(#[trigger] tokens[j]@))
                    ==> line@ == parrot_line(tokens[i]@.text),
    {
        let noun = "名詞".to_owned();
        let verb = "動詞".to_owned();
        let adjective = "形容詞".to_owned();
        let mut word: &str = "";
        let mut i: usize = tokens.len();
        proof {
            reveal_strlit("");
            assert(tokens.deep_view().take(i as int) =~= tokens.deep_view());
        }
        while i > 0
            invariant_except_break
                word@ == Seq::<char>::empty(),
                parrot_word(tokens.deep_view()) == parrot_word(tokens.deep_view().take(i as int)),
            invariant
                i <= tokens.len(),
                noun@ == self::noun(),
                verb@ == self::verb(),
                adjective@ == self::adjective(),
            ensures
                word@ == parrot_word(tokens.deep_view()),
            decreases i,
        {
            i -= 1;
            assert(tokens.deep_view().take(i + 1).drop_last() =~= tokens.deep_view().take(
                i as int,
            ));
            match &tokens[i].detail {
                TokenDetail::Info(detail) => {
                    if detail.part_of_speech == noun || detail.part_of_speech == verb
                        || detail.part_of_speech == adjective {
                        word = tokens[i].text.as_str();
                        break ;
                    }
                },
                TokenDetail::Unknown => {},
            }
        }
        let mut line = String::new();
        line.append(word);
        line.append("! ");
        line.append(word);
        line.append("!");
        proof {
            reveal_strlit("! ");
            reveal_strlit("!");
            let sentence = tokens.deep_view();
            if forall|i: int| 0 <= i < tokens.len() ==> !is_content_word(#[trigger] tokens[i]@) {
                lemma_parrot_without_content_word(sentence);
            }
            assert forall|i: int|
                0 <= i < tokens.len() && is_content_word(#[trigger] tokens[i]@) && (forall|j: int|
                    i < j < tokens.len() ==> !is_content_word(
                        #[trigger] tokens[j]@,
                    )) implies line@ == parrot_line(tokens[i]@.text) by {
                lemma_parrot_last_content_word(sentence, i);
            }
        }
        line
    }

    /// Rewrites the sentence with every hidden token replaced by the mask.
    ///
    /// Each token gives one span of the result: the mask applied to its text
    /// where the token is hidden, its own text otherwise. The spans follow one
    /// another in the order of the tokens, with nothing between them.
    pub fn masquerade(&self, tokens: &[Token], mask: Mask) -> (masked_text: String)
        ensures
            masked_text@ == spans(tokens.deep_view(), mask@, self@).flatten(),
    {
        let mut masked_text = String::new();
        let mut i: usize = 0;
        while i < tokens.len()
            invariant
                i <= tokens.len(),
                masked_text@ == spans(tokens.deep_view().take(i as int), mask@, self@).flatten(),
            decreases tokens.len() - i,
        {
            let token = &tokens[i];
            let hidden = match &token.detail {
                TokenDetail::Info(detail) => self.is_target(&detail.part_of_speech),
                TokenDetail::Unknown => true,
            };
            proof {
                let done = tokens.deep_view().take(i as int);
                let next = tokens.deep_view().take(i + 1);
                assert(spans(next, mask@, self@) =~= spans(done, mask@, self@).push(
                    span(token@, mask@, self@),
                ));
                spans(done, mask@, self@).lemma_flatten_push(span(token@, mask@, self@));
            }
            if hidden {
                let word = Self::mask_word(token.text.as_str(), &mask);
                masked_text.append(word.as_str());
            } else {
                masked_text.append(token.text.as_str());
            }
            i += 1;
        }
        assert(tokens.deep_view().take(tokens.len() as int) =~= tokens.deep_view());
        masked_text
    }
}

} // verus!
