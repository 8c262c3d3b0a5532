//! The rule scripts of the input method: a small language that says which
//! keys change the word, and how.
//!
//! A script looks like this:
//!
//! ```text
//! import telex
//! import vni
//!
//! on s or ': add_tone(acute) end
//!
//! on a or e or o or 6:
//!   letter_mod(circumflex for a or e or o)
//! end
//!
//! on w or 7 or 8:
//!   reset_inserted_uw() or
//!   letter_mod(horn or breve for u or o) or
//!   insert_uw()
//! end
//! ```
//!
//! Its grammar:
//!
//! ```ebnf
//! <program> ::= <import_list>? <whitespace> <block_list>?
//!
//! <import_list> ::= <import> ( <whitespace> <import_list> )?
//! <import> ::= "import" <whitespace> <identifier>
//!
//! <block_list> ::= <block> ( <whitespace> <block_list> )?
//! <block> ::= "on" <whitespace> <key_list> <whitespace> ":" <whitespace> <function_call_list> <whitespace> "end"
//!
//! <function_call_list> ::= <function_call> ( <whitespace> "or" <whitespace> <function_call_list> )?
//! <function_call> ::= <identifier> "(" ( <identifier_list> ( <whitespace> "for" <whitespace> <key_list> )? )? ")"
//!
//! <identifier_list> ::= <identifier> ( <whitespace> "or" <whitespace> <identifier_list> )?
//! <identifier> ::= (<letter> | <digit> | "_")+
//!
//! <key_list> ::= <key> ( <whitespace> "or" <whitespace> <key_list> )?
//! <key> ::= any character but white space
//!
//! <whitespace> ::= (" " | "\t" | "\r" | "\n")*
//! ```
pub mod parser;
