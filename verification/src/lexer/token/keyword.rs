use vstd::prelude::*;

verus! {

/// A reserved word of the language.
#[derive(Debug, PartialEq, Eq, Clone, Copy, Structural)]
pub enum Keyword {
    Break,
    Continue,
    Else,
    False,
    Let,
    Function,
    For,
    If,
    Loop,
    Match,
    Return,
    True,
    While,
    Class,
    Import,
}

/// Whether two string slices hold the same characters; the comparison itself is
/// `str`'s `==` from the standard library, which compares the contents.
#[verifier::external_body]
fn same_text(a: &str, b: &str) -> (r: bool)
    ensures
        r == (a@ == b@),
{
    a == b
}

impl Keyword {
    /// The way the keyword is written in source text.
    pub open spec fn spelling(self) -> Seq<char> {
        match self {
            Keyword::Break => "break"@,
            Keyword::Continue => "continue"@,
            Keyword::Else => "else"@,
            Keyword::False => "false"@,
            Keyword::Let => "let"@,
            Keyword::Function => "function"@,
            Keyword::For => "for"@,
            Keyword::If => "if"@,
            Keyword::Loop => "loop"@,
            Keyword::Match => "match"@,
            Keyword::Return => "return"@,
            Keyword::True => "true"@,
            Keyword::While => "while"@,
            Keyword::Class => "class"@,
            Keyword::Import => "import"@,
        }
    }

    /// The keyword written exactly as `word`, if there is one.
    pub open spec fn from_spelling(word: Seq<char>) -> Option<Keyword> {
        if word == "break"@ {
            Some(Keyword::Break)
        } else if word == "continue"@ {
            Some(Keyword::Continue)
        } else if word == "else"@ {
            Some(Keyword::Else)
        } else if word == "false"@ {
            Some(Keyword::False)
        } else if word == "let"@ {
            Some(Keyword::Let)
        } else if word == "function"@ {
            Some(Keyword::Function)
        } else if word == "for"@ {
            Some(Keyword::For)
        } else if word == "if"@ {
            Some(Keyword::If)
        } else if word == "loop"@ {
            Some(Keyword::Loop)
        } else if word == "match"@ {
            Some(Keyword::Match)
        } else if word == "return"@ {
            Some(Keyword::Return)
        } else if word == "true"@ {
            Some(Keyword::True)
        } else if word == "while"@ {
            Some(Keyword::While)
        } else if word == "class"@ {
            Some(Keyword::Class)
        } else if word == "import"@ {
            Some(Keyword::Import)
        } else {
            None
        }
    }

    /// Every keyword is recognised from its own spelling, and from no other word.
    pub proof fn lemma_spelling_is_exact(word: Seq<char>, keyword: Keyword)
        ensures
            Keyword::from_spelling(word) == Some(keyword) <==> word == keyword.spelling(),
    {
        reveal_strlit("break");
        reveal_strlit("continue");
        reveal_strlit("else");
        reveal_strlit("false");
        reveal_strlit("let");
        reveal_strlit("function");
        reveal_strlit("for");
        reveal_strlit("if");
        reveal_strlit("loop");
        reveal_strlit("match");
        reveal_strlit("return");
        reveal_strlit("true");
        reveal_strlit("while");
        reveal_strlit("class");
        reveal_strlit("import");
        assert("break"@.len() == 5 && "break"@[0] == 'b');
        assert("continue"@.len() == 8 && "continue"@[0] == 'c');
        assert("else"@.len() == 4 && "else"@[0] == 'e');
        assert("false"@.len() == 5 && "false"@[0] == 'f');
        assert("let"@.len() == 3 && "let"@[0] == 'l');
        assert("function"@.len() == 8 && "function"@[0] == 'f');
        assert("for"@.len() == 3 && "for"@[0] == 'f');
        assert("if"@.len() == 2 && "if"@[0] == 'i');
        assert("loop"@.len() == 4 && "loop"@[0] == 'l');
        assert("match"@.len() == 5 && "match"@[0] == 'm');
        assert("return"@.len() == 6 && "return"@[0] == 'r');
        assert("true"@.len() == 4 && "true"@[0] == 't');
        assert("while"@.len() == 5 && "while"@[0] == 'w');
        assert("class"@.len() == 5 && "class"@[0] == 'c');
        assert("import"@.len() == 6 && "import"@[0] == 'i');
    }

    /// Recognises a keyword from its exact spelling; any other word is refused.
    pub fn from_str(s: &str) -> (r: Result<Keyword, ()>)
        ensures
            r == match Keyword::from_spelling(s@) {
                Some(keyword) => Ok::<Keyword, ()>(keyword),
                None => Err(()),
            },
    {
        if same_text(s, "break") {
            Ok(Keyword::Break)
        } else if same_text(s, "continue") {
            Ok(Keyword::Continue)
        } else if same_text(s, "else") {
            Ok(Keyword::Else)
        } else if same_text(s, "false") {
            Ok(Keyword::False)
        } else if same_text(s, "let") {
            Ok(Keyword::Let)
        } else if same_text(s, "function") {
            Ok(Keyword::Function)
        } else if same_text(s, "for") {
            Ok(Keyword::For)
        } else if same_text(s, "if") {
            Ok(Keyword::If)
        } else if same_text(s, "loop") {
            Ok(Keyword::Loop)
        } else if same_text(s, "match") {
            Ok(Keyword::Match)
        } else if same_text(s, "return") {
            Ok(Keyword::Return)
        } else if same_text(s, "true") {
            Ok(Keyword::True)
        } else if same_text(s, "while") {
            Ok(Keyword::While)
        } else if same_text(s, "class") {
            Ok(Keyword::Class)
        } else if same_text(s, "import") {
            Ok(Keyword::Import)
        } else {
            Err(())
        }
    }
}

} // verus!
