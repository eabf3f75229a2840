//! The conversion of one schema document: from its JSON text to the text of
//! the TypeScript declarations that it describes.

use vstd::prelude::*;
use crate::json::{JsonModel, JsonValue};
use crate::model::{type_of, SchemaError, Type};
use crate::reader::{document_model, parse_document, SyntaxError};
use crate::text::{join, join_strings};
use crate::typescript_conversion::{
    convert_schema_to_typescript, emitted, is_emittable, TypeScriptDecls,
};

verus! {

/// Why a document was not converted.
#[derive(Debug, PartialEq, Eq)]
pub enum ConvertError {
    /// The text is no JSON document.
    Syntax(SyntaxError),
    /// The document is no schema.
    Schema(SchemaError),
    /// The schema holds an array or a fixed type, for which no rendering is
    /// defined.
    Unsupported,
}

/// How the conversion of a document ends.
pub enum Outcome {
    /// The root type is referred to by `name`, and `text` declares what the
    /// schema declares.
    Converted { name: Seq<char>, text: Seq<char> },
    /// The text is no JSON document.
    NoDocument,
    /// The document is no schema.
    NoSchema(SchemaError),
    /// The schema holds an array or a fixed type.
    Unsupported,
}

/// The text of the declarations: the interfaces, one to a line, a blank
/// line, and the enumerations, one to a line.
pub open spec fn output_text(
    interfaces: Seq<Seq<char>>,
    enumerations: Seq<Seq<char>>,
) -> Seq<char> {
    join(interfaces, "\n"@) + "\n\n"@ + join(enumerations, "\n"@)
}

/// How the conversion of the JSON value `document` ends.
pub open spec fn converted(document: JsonModel) -> Outcome {
    match type_of(document) {
        Err(e) => Outcome::NoSchema(e),
        Ok(t) => match emitted(t) {
            None => Outcome::Unsupported,
            Some(e) => Outcome::Converted {
                name: e.token,
                text: output_text(e.interfaces, e.enumerations),
            },
        },
    }
}

/// How the conversion of the JSON text `src` ends.
pub open spec fn converted_text(src: Seq<char>) -> Outcome {
    match document_model(src) {
        None => Outcome::NoDocument,
        Some(document) => converted(document),
    }
}

/// The outcome that a result of the conversion stands for.
pub open spec fn outcome_of(r: Result<(String, String), ConvertError>) -> Outcome {
    match r {
        Ok((name, text)) => Outcome::Converted { name: name@, text: text@ },
        Err(ConvertError::Syntax(_)) => Outcome::NoDocument,
        Err(ConvertError::Schema(e)) => Outcome::NoSchema(e),
        Err(ConvertError::Unsupported) => Outcome::Unsupported,
    }
}

/// The text of the declarations in `decls`.
pub fn render(decls: &TypeScriptDecls) -> (r: String)
    ensures
        r@ == output_text(decls@.interfaces, decls@.enumerations),
{
    let mut text = join_strings(&decls.interfaces, "\n");
    let enumerations = join_strings(&decls.enumerations, "\n");
    text.append("\n\n");
    text.append(enumerations.as_str());
    text
}

/// Converts the schema that the JSON value `document` holds: the expression
/// that refers to its root type, and the text of its declarations.
pub fn convert_document(document: &JsonValue) -> (r: Result<(String, String), ConvertError>)
    ensures
        outcome_of(r) == converted(document@),
{
    match Type::try_from(document) {
        Err(e) => Err(ConvertError::Schema(e)),
        Ok(schema) => {
            if !is_emittable(&schema) {
                return Err(ConvertError::Unsupported);
            }
            let mut decls = TypeScriptDecls { interfaces: Vec::new(), enumerations: Vec::new() };
            let name = convert_schema_to_typescript(schema, &mut decls);
            let text = render(&decls);
            Ok((name, text))
        },
    }
}

/// Converts the schema that the JSON text `src` holds: the expression that
/// refers to its root type, and the text of its declarations.
pub fn convert_str(src: &str) -> (r: Result<(String, String), ConvertError>)
    ensures
        outcome_of(r) == converted_text(src@),
{
    match parse_document(src) {
        Err(e) => Err(ConvertError::Syntax(e)),
        Ok(document) => convert_document(&document),
    }
}

/// Whatever two runs on the same text return, they end alike: both fail for
/// the same reason, or both give the same name and the same text.
pub proof fn lemma_conversion_repeats(
    src: Seq<char>,
    first: Result<(String, String), ConvertError>,
    second: Result<(String, String), ConvertError>,
)
    requires
        outcome_of(first) == converted_text(src),
        outcome_of(second) == converted_text(src),
    ensures
        outcome_of(first) == outcome_of(second),
        first matches Ok(a) ==> second matches Ok(b) && a.0@ == b.0@ && a.1@ == b.1@,
{
}

} // verus!
