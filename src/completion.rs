//! Autocompletion results as handed to the editor.
use vstd::prelude::*;

verus! {

/// The kind of a completion, with its wire code.
#[derive(Clone, Copy, Debug, PartialEq, Eq, Structural)]
pub enum TypstCompletionKind {
    Syntax,
    Function,
    Parameter,
    Constant,
    Symbol,
    Type,
}

impl TypstCompletionKind {
    /// The kind's code on the wire: 1 to 6, in declaration order.
    pub fn code(&self) -> (r: u8)
        ensures
            *self == TypstCompletionKind::Syntax ==> r == 1,
            *self == TypstCompletionKind::Function ==> r == 2,
            *self == TypstCompletionKind::Parameter ==> r == 3,
            *self == TypstCompletionKind::Constant ==> r == 4,
            *self == TypstCompletionKind::Symbol ==> r == 5,
            *self == TypstCompletionKind::Type ==> r == 6,
    {
        match self {
            TypstCompletionKind::Syntax => 1,
            TypstCompletionKind::Function => 2,
            TypstCompletionKind::Parameter => 3,
            TypstCompletionKind::Constant => 4,
            TypstCompletionKind::Symbol => 5,
            TypstCompletionKind::Type => 6,
        }
    }
}

/// The byte offset in `text` of its character offset `chars` (the end of
/// the text where `chars` lies past it).
pub fn char_to_byte_offset(text: &str, chars: usize) -> (r: usize)
    ensures
        r == vstd::utf8::encode_utf8(
            text@.subrange(0, if chars <= text@.len() { chars as int } else { text@.len() as int }),
        ).len() as usize,
{
    let len = text.unicode_len();
    let n = if chars <= len { chars } else { len };
    text.substring_char(0, n).len()
}

/// The character offset in `text` of the byte offset `bytes`, which lies on
/// a character boundary.
pub fn byte_to_char_offset(text: &str, bytes: usize) -> (r: usize)
    requires
        vstd::utf8::is_char_boundary(vstd::utf8::encode_utf8(text@), bytes as int),
    ensures
        exists|prefix: Seq<char>|
            #[trigger] vstd::utf8::encode_utf8(prefix) == vstd::utf8::encode_utf8(text@).subrange(0, bytes as int)
                && r == prefix.len(),
{
    let (head, _) = text.split_at(bytes);
    let r = head.unicode_len();
    assert(vstd::utf8::encode_utf8(head@) == vstd::utf8::encode_utf8(text@).subrange(0, bytes as int));
    r
}

/// One completion.
pub struct TypstCompletion {
    pub kind: TypstCompletionKind,
    pub label: String,
    pub apply: Option<String>,
    pub detail: Option<String>,
}

/// The completions at an offset (in characters).
pub struct TypstCompleteResponse {
    pub offset: usize,
    pub completions: Vec<TypstCompletion>,
}

} // verus!
