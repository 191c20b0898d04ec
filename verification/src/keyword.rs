//! The block keywords that drive indentation.

use vstd::prelude::*;
use crate::text::str_eq;

verus! {

/// A block-control keyword: one of a fixed, closed set.
#[derive(Clone, Copy, Debug, PartialEq, Eq, Structural)]
pub enum Keyword {
    If,
    Elif,
    Else,
    Endif,
    For,
    Endfor,
    Macro,
    Endmacro,
    Call,
    Endcall,
    Filter,
    Endfilter,
}

/// What a keyword does to the block structure.
#[derive(Clone, Copy, Debug, PartialEq, Eq, Structural)]
pub enum Role {
    /// Starts a block: `if`, `for`, `macro`, `call`, `filter`.
    Opener,
    /// Branches within a block: `elif`, `else`.
    Mid,
    /// Ends a block: `endif`, `endfor`, `endmacro`, `endcall`, `endfilter`.
    Closer,
}

impl Keyword {
    /// The source text of the keyword.
    pub open spec fn text(self) -> Seq<char> {
        match self {
            Keyword::If => "if"@,
            Keyword::Elif => "elif"@,
            Keyword::Else => "else"@,
            Keyword::Endif => "endif"@,
            Keyword::For => "for"@,
            Keyword::Endfor => "endfor"@,
            Keyword::Macro => "macro"@,
            Keyword::Endmacro => "endmacro"@,
            Keyword::Call => "call"@,
            Keyword::Endcall => "endcall"@,
            Keyword::Filter => "filter"@,
            Keyword::Endfilter => "endfilter"@,
        }
    }

    /// The structural class of the keyword.
    pub open spec fn spec_role(self) -> Role {
        match self {
            Keyword::If | Keyword::For | Keyword::Macro | Keyword::Call | Keyword::Filter => {
                Role::Opener
            },
            Keyword::Elif | Keyword::Else => Role::Mid,
            Keyword::Endif
            | Keyword::Endfor
            | Keyword::Endmacro
            | Keyword::Endcall
            | Keyword::Endfilter => Role::Closer,
        }
    }

    /// The structural class of the keyword.
    #[verifier::when_used_as_spec(spec_role)]
    pub fn role(self) -> (role: Role)
        ensures
            role == self.spec_role(),
    {
        match self {
            Keyword::If | Keyword::For | Keyword::Macro | Keyword::Call | Keyword::Filter => {
                Role::Opener
            },
            Keyword::Elif | Keyword::Else => Role::Mid,
            Keyword::Endif
            | Keyword::Endfor
            | Keyword::Endmacro
            | Keyword::Endcall
            | Keyword::Endfilter => Role::Closer,
        }
    }

    /// The source text of the keyword.
    pub fn as_str(self) -> (s: &'static str)
        ensures
            s@ == self.text(),
    {
        match self {
            Keyword::If => "if",
            Keyword::Elif => "elif",
            Keyword::Else => "else",
            Keyword::Endif => "endif",
            Keyword::For => "for",
            Keyword::Endfor => "endfor",
            Keyword::Macro => "macro",
            Keyword::Endmacro => "endmacro",
            Keyword::Call => "call",
            Keyword::Endcall => "endcall",
            Keyword::Filter => "filter",
            Keyword::Endfilter => "endfilter",
        }
    }

    /// The keyword that `text` spells, if it spells one.
    pub fn from_text(text: &str) -> (keyword: Option<Keyword>)
        ensures
            keyword == keyword_of(text@),
    {
        if str_eq(text, "if") {
            Some(Keyword::If)
        } else if str_eq(text, "elif") {
            Some(Keyword::Elif)
        } else if str_eq(text, "else") {
            Some(Keyword::Else)
        } else if str_eq(text, "endif") {
            Some(Keyword::Endif)
        } else if str_eq(text, "for") {
            Some(Keyword::For)
        } else if str_eq(text, "endfor") {
            Some(Keyword::Endfor)
        } else if str_eq(text, "macro") {
            Some(Keyword::Macro)
        } else if str_eq(text, "endmacro") {
            Some(Keyword::Endmacro)
        } else if str_eq(text, "call") {
            Some(Keyword::Call)
        } else if str_eq(text, "endcall") {
            Some(Keyword::Endcall)
        } else if str_eq(text, "filter") {
            Some(Keyword::Filter)
        } else if str_eq(text, "endfilter") {
            Some(Keyword::Endfilter)
        } else {
            None
        }
    }
}

/// The keyword whose source text is `text`, or `None` when `text` is not
/// one of the twelve block keywords.
pub open spec fn keyword_of(text: Seq<char>) -> Option<Keyword> {
    if text == "if"@ {
        Some(Keyword::If)
    } else if text == "elif"@ {
        Some(Keyword::Elif)
    } else if text == "else"@ {
        Some(Keyword::Else)
    } else if text == "endif"@ {
        Some(Keyword::Endif)
    } else if text == "for"@ {
        Some(Keyword::For)
    } else if text == "endfor"@ {
        Some(Keyword::Endfor)
    } else if text == "macro"@ {
        Some(Keyword::Macro)
    } else if text == "endmacro"@ {
        Some(Keyword::Endmacro)
    } else if text == "call"@ {
        Some(Keyword::Call)
    } else if text == "endcall"@ {
        Some(Keyword::Endcall)
    } else if text == "filter"@ {
        Some(Keyword::Filter)
    } else if text == "endfilter"@ {
        Some(Keyword::Endfilter)
    } else {
        None
    }
}

/// Reveals the characters of the twelve keyword literals.
pub proof fn lemma_keyword_texts()
    ensures
        "if"@ == seq!['i', 'f'],
        "elif"@ == seq!['e', 'l', 'i', 'f'],
        "else"@ == seq!['e', 'l', 's', 'e'],
        "endif"@ == seq!['e', 'n', 'd', 'i', 'f'],
        "for"@ == seq!['f', 'o', 'r'],
        "endfor"@ == seq!['e', 'n', 'd', 'f', 'o', 'r'],
        "macro"@ == seq!['m', 'a', 'c', 'r', 'o'],
        "endmacro"@ == seq!['e', 'n', 'd', 'm', 'a', 'c', 'r', 'o'],
        "call"@ == seq!['c', 'a', 'l', 'l'],
        "endcall"@ == seq!['e', 'n', 'd', 'c', 'a', 'l', 'l'],
        "filter"@ == seq!['f', 'i', 'l', 't', 'e', 'r'],
        "endfilter"@ == seq!['e', 'n', 'd', 'f', 'i', 'l', 't', 'e', 'r'],
{
    reveal_strlit("if");
    reveal_strlit("elif");
    reveal_strlit("else");
    reveal_strlit("endif");
    reveal_strlit("for");
    reveal_strlit("endfor");
    reveal_strlit("macro");
    reveal_strlit("endmacro");
    reveal_strlit("call");
    reveal_strlit("endcall");
    reveal_strlit("filter");
    reveal_strlit("endfilter");
}

/// Classification and spelling are inverse to each other: every keyword is
/// recognised from its own text, and a text is recognised as a keyword
/// exactly if it spells that keyword.
pub proof fn lemma_keyword_round_trip(keyword: Keyword, text: Seq<char>)
    ensures
        keyword_of(keyword.text()) == Some(keyword),
        keyword_of(text) == Some(keyword) <==> text == keyword.text(),
{
    lemma_keyword_texts();
}

/// A text is left unclassified exactly if it spells none of the keywords.
pub proof fn lemma_unspelled_is_unclassified(text: Seq<char>)
    ensures
        keyword_of(text) is None <==> forall|keyword: Keyword| #[trigger] keyword.text() != text,
{
    if keyword_of(text) is None {
        assert forall|keyword: Keyword| #[trigger] keyword.text() != text by {
            lemma_keyword_round_trip(keyword, text);
        }
    } else {
        let keyword = keyword_of(text).unwrap();
        lemma_keyword_round_trip(keyword, text);
    }
}

} // verus!
