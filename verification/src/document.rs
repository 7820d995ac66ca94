//! Document types, content hashing and storage paths.

use crate::error::ChonkitError;
use crate::text::{chars_of, push_str, str_eq, string_from_range};
use vstd::prelude::*;

verus! {

/// All possible file types chonkit can process.
#[derive(Debug, Clone, Copy, PartialEq, Eq, Structural)]
pub enum DocumentType {
    /// Encapsulates any files that can be read as strings.
    /// Does not necessarily have to be `.txt`, could be `.json`, `.csv`, etc.
    Text(TextDocumentType),
    /// Word document.
    Docx,
    /// PDF document.
    Pdf,
    /// Spreadsheet.
    Excel,
}

#[derive(Debug, Clone, Copy, PartialEq, Eq, Structural)]
pub enum TextDocumentType {
    Md,
    Xml,
    Json,
    Csv,
    Txt,
}

/// The document type named by a file extension or a mime type, if any.
pub open spec fn document_type_of(value: Seq<char>) -> Option<DocumentType> {
    if value == "xlsx"@ || value == "application/vnd.google-apps.spreadsheet"@ {
        Some(DocumentType::Excel)
    } else if value == "md"@ {
        Some(DocumentType::Text(TextDocumentType::Md))
    } else if value == "xml"@ {
        Some(DocumentType::Text(TextDocumentType::Xml))
    } else if value == "json"@ || value == "application/json"@ {
        Some(DocumentType::Text(TextDocumentType::Json))
    } else if value == "csv"@ {
        Some(DocumentType::Text(TextDocumentType::Csv))
    } else if value == "txt"@ || value == "text/plain"@ {
        Some(DocumentType::Text(TextDocumentType::Txt))
    } else if value == "pdf"@ || value == "application/pdf"@ {
        Some(DocumentType::Pdf)
    } else if value == "docx"@ || value == "application/vnd.google-apps.document"@ || value
        == "application/vnd.openxmlformats-officedocument.wordprocessingml.document"@ {
        Some(DocumentType::Docx)
    } else {
        None
    }
}

/// Index of the last `'.'` in `s`, or `-1` when there is none.
pub open spec fn last_dot(s: Seq<char>) -> int
    decreases s.len(),
{
    if s.len() == 0 {
        -1
    } else if s.last() == '.' {
        s.len() - 1
    } else {
        last_dot(s.drop_last())
    }
}

proof fn lemma_last_dot_bound(s: Seq<char>)
    ensures
        -1 <= last_dot(s) < s.len(),
        last_dot(s) >= 0 ==> s[last_dot(s)] == '.',
        forall|i: int| last_dot(s) < i < s.len() ==> #[trigger] s[i] != '.',
    decreases s.len(),
{
    if s.len() > 0 && s.last() != '.' {
        lemma_last_dot_bound(s.drop_last());
        assert forall|i: int| last_dot(s) < i < s.len() implies #[trigger] s[i] != '.' by {
            if i < s.len() - 1 {
                assert(s[i] == s.drop_last()[i]);
            }
        }
    }
}

/// The extension of a file name: what follows its last `'.'`.
pub open spec fn file_extension(name: Seq<char>) -> Option<Seq<char>> {
    let k = last_dot(name);
    if k < 0 {
        None
    } else {
        Some(name.skip(k + 1))
    }
}

impl DocumentType {
    /// Implementation that should be given either the document extension or a mime type.
    pub fn try_from_str(value: &str) -> (res: Result<Self, ChonkitError>)
        ensures
            match document_type_of(value@) {
                Some(t) => res == Ok::<DocumentType, ChonkitError>(t),
                None => res matches Err(ChonkitError::UnsupportedFileType(m)) && m@ == value@,
            },
    {
        if str_eq(value, "xlsx") || str_eq(value, "application/vnd.google-apps.spreadsheet") {
            Ok(Self::Excel)
        } else if str_eq(value, "md") {
            Ok(Self::Text(TextDocumentType::Md))
        } else if str_eq(value, "xml") {
            Ok(Self::Text(TextDocumentType::Xml))
        } else if str_eq(value, "json") || str_eq(value, "application/json") {
            Ok(Self::Text(TextDocumentType::Json))
        } else if str_eq(value, "csv") {
            Ok(Self::Text(TextDocumentType::Csv))
        } else if str_eq(value, "txt") || str_eq(value, "text/plain") {
            Ok(Self::Text(TextDocumentType::Txt))
        } else if str_eq(value, "pdf") || str_eq(value, "application/pdf") {
            Ok(Self::Pdf)
        } else if str_eq(value, "docx") || str_eq(value, "application/vnd.google-apps.document")
            || str_eq(
            value,
            "application/vnd.openxmlformats-officedocument.wordprocessingml.document",
        ) {
            Ok(Self::Docx)
        } else {
            Err(ChonkitError::UnsupportedFileType(value.to_owned()))
        }
    }

    /// The document type of a file name, by the extension after its last `'.'`.
    pub fn try_from_file_name(name: &str) -> (res: Result<Self, ChonkitError>)
        ensures
            match file_extension(name@) {
                None => res matches Err(ChonkitError::UnsupportedFileType(m)) && m@ == name@
                    + " - missing extension"@,
                Some(ext) => match document_type_of(ext) {
                    Some(t) => res == Ok::<DocumentType, ChonkitError>(t),
                    None => res matches Err(ChonkitError::UnsupportedFileType(m)) && m@ == ext,
                },
            },
    {
        let cs = chars_of(name);
        let mut k: usize = cs.len();
        proof {
            lemma_last_dot_bound(name@);
        }
        while k > 0 && cs[k - 1] != '.'
            invariant
                k <= cs@.len(),
                cs@ == name@,
                forall|i: int| k <= i < cs@.len() ==> #[trigger] cs@[i] != '.',
            decreases k,
        {
            k = k - 1;
        }
        proof {
            if k > 0 {
                assert(last_dot(name@) == k - 1) by {
                    if last_dot(name@) != k - 1 {
                        assert(name@[k - 1] == '.');
                        if last_dot(name@) >= k {
                            assert(name@[last_dot(name@)] == '.');
                        }
                    }
                }
            } else {
                assert(last_dot(name@) < 0) by {
                    if last_dot(name@) >= 0 {
                        assert(name@[last_dot(name@)] == '.');
                    }
                }
            }
        }
        if k == 0 {
            let mut msg = name.to_owned();
            push_str(&mut msg, " - missing extension");
            return Err(ChonkitError::UnsupportedFileType(msg));
        }
        let ext = string_from_range(&cs, k, cs.len());
        assert(ext@ =~= name@.skip(k as int));
        Self::try_from_str(ext.as_str())
    }

    /// The name of the type, as an extension.
    pub fn as_str(&self) -> (res: &'static str)
        ensures
            res@ == document_type_name(*self),
    {
        match self {
            DocumentType::Text(ty) => match ty {
                TextDocumentType::Md => "md",
                TextDocumentType::Xml => "xml",
                TextDocumentType::Json => "json",
                TextDocumentType::Csv => "csv",
                TextDocumentType::Txt => "txt",
            },
            DocumentType::Docx => "docx",
            DocumentType::Pdf => "pdf",
            DocumentType::Excel => "xlsx",
        }
    }
}

/// The name under which a type is shown: its usual extension.
pub open spec fn document_type_name(t: DocumentType) -> Seq<char> {
    match t {
        DocumentType::Text(ty) => match ty {
            TextDocumentType::Md => "md"@,
            TextDocumentType::Xml => "xml"@,
            TextDocumentType::Json => "json"@,
            TextDocumentType::Csv => "csv"@,
            TextDocumentType::Txt => "txt"@,
        },
        DocumentType::Docx => "docx"@,
        DocumentType::Pdf => "pdf"@,
        DocumentType::Excel => "xlsx"@,
    }
}

/// A path on the FS.
#[derive(Debug)]
pub struct LocalPath(pub String);

/// A _path_ on an external document provider.
/// For Google, this is the file ID.
#[derive(Debug)]
pub struct ExternalPath(pub String);

/// The SHA-256 digest of `bytes`.
pub uninterp spec fn sha256_digest(bytes: Seq<u8>) -> Seq<u8>;

/// `sha2::Sha256` over `input`: the digest is named [sha256_digest]; it is 32 bytes long.
#[verifier::external_body]
fn sha256_bytes(input: &[u8]) -> (res: Vec<u8>)
    ensures
        res@ == sha256_digest(input@),
        res@.len() == 32,
{
    <sha2::Sha256 as sha2::Digest>::digest(input).to_vec()
}

/// The lower case hexadecimal digit for `d < 16`.
pub open spec fn hex_digit(d: u8) -> char {
    if d < 10 {
        (('0' as u8) + d) as char
    } else {
        (('a' as u8) + d - 10) as char
    }
}

/// `bytes` in lower case hexadecimal, two digits per byte, high half first.
pub open spec fn hex_lower(bytes: Seq<u8>) -> Seq<char>
    decreases bytes.len(),
{
    if bytes.len() == 0 {
        seq![]
    } else {
        hex_lower(bytes.drop_last()) + seq![
            hex_digit(bytes.last() / 16),
            hex_digit(bytes.last() % 16),
        ]
    }
}

/// `hex::encode`: each byte as two lower case hexadecimal digits, high half first.
#[verifier::external_body]
fn hex_encode(bytes: &[u8]) -> (res: String)
    ensures
        res@ == hex_lower(bytes@),
{
    hex::encode(bytes)
}

/// Return a SHA256 hash of the input, in lower case hexadecimal.
///
/// * `input`: Input bytes.
pub fn sha256(input: &[u8]) -> (res: String)
    ensures
        res@ == hex_lower(sha256_digest(input@)),
        res@.len() == 64,
{
    let digest = sha256_bytes(input);
    let res = hex_encode(digest.as_slice());
    proof {
        lemma_hex_lower_len(digest@);
    }
    res
}

proof fn lemma_hex_lower_len(bytes: Seq<u8>)
    ensures
        hex_lower(bytes).len() == 2 * bytes.len(),
    decreases bytes.len(),
{
    if bytes.len() > 0 {
        lemma_hex_lower_len(bytes.drop_last());
    }
}


/// Every document type is read back from the name it is shown under:
/// [DocumentType::try_from_str] of [DocumentType::as_str] gives the type again.
pub proof fn law_document_type_name_round_trip(f: DocumentType)
    ensures
        document_type_of(document_type_name(f)) == Some(f),
{
    match f {
        DocumentType::Text(TextDocumentType::Md) => {
            reveal_strlit("md");
            reveal_strlit("xlsx");
            assert("md"@.len() != "xlsx"@.len());
            reveal_strlit("application/vnd.google-apps.spreadsheet");
            assert("md"@.len() != "application/vnd.google-apps.spreadsheet"@.len());
        },
        DocumentType::Text(TextDocumentType::Xml) => {
            reveal_strlit("xml");
            reveal_strlit("xlsx");
            assert("xml"@.len() != "xlsx"@.len());
            reveal_strlit("application/vnd.google-apps.spreadsheet");
            assert("xml"@.len() != "application/vnd.google-apps.spreadsheet"@.len());
            reveal_strlit("md");
            assert("xml"@.len() != "md"@.len());
        },
        DocumentType::Text(TextDocumentType::Json) => {
            reveal_strlit("json");
            reveal_strlit("xlsx");
            assert("json"@[0] != "xlsx"@[0]);
            reveal_strlit("application/vnd.google-apps.spreadsheet");
            assert("json"@.len() != "application/vnd.google-apps.spreadsheet"@.len());
            reveal_strlit("md");
            assert("json"@.len() != "md"@.len());
            reveal_strlit("xml");
            assert("json"@.len() != "xml"@.len());
        },
        DocumentType::Text(TextDocumentType::Csv) => {
            reveal_strlit("csv");
            reveal_strlit("xlsx");
            assert("csv"@.len() != "xlsx"@.len());
            reveal_strlit("application/vnd.google-apps.spreadsheet");
            assert("csv"@.len() != "application/vnd.google-apps.spreadsheet"@.len());
            reveal_strlit("md");
            assert("csv"@.len() != "md"@.len());
            reveal_strlit("xml");
            assert("csv"@[0] != "xml"@[0]);
            reveal_strlit("json");
            assert("csv"@.len() != "json"@.len());
            reveal_strlit("application/json");
            assert("csv"@.len() != "application/json"@.len());
        },
        DocumentType::Text(TextDocumentType::Txt) => {
            reveal_strlit("txt");
            reveal_strlit("xlsx");
            assert("txt"@.len() != "xlsx"@.len());
            reveal_strlit("application/vnd.google-apps.spreadsheet");
            assert("txt"@.len() != "application/vnd.google-apps.spreadsheet"@.len());
            reveal_strlit("md");
            assert("txt"@.len() != "md"@.len());
            reveal_strlit("xml");
            assert("txt"@[0] != "xml"@[0]);
            reveal_strlit("json");
            assert("txt"@.len() != "json"@.len());
            reveal_strlit("application/json");
            assert("txt"@.len() != "application/json"@.len());
            reveal_strlit("csv");
            assert("txt"@[0] != "csv"@[0]);
        },
        DocumentType::Docx => {
            reveal_strlit("docx");
            reveal_strlit("xlsx");
            assert("docx"@[0] != "xlsx"@[0]);
            reveal_strlit("application/vnd.google-apps.spreadsheet");
            assert("docx"@.len() != "application/vnd.google-apps.spreadsheet"@.len());
            reveal_strlit("md");
            assert("docx"@.len() != "md"@.len());
            reveal_strlit("xml");
            assert("docx"@.len() != "xml"@.len());
            reveal_strlit("json");
            assert("docx"@[0] != "json"@[0]);
            reveal_strlit("application/json");
            assert("docx"@.len() != "application/json"@.len());
            reveal_strlit("csv");
            assert("docx"@.len() != "csv"@.len());
            reveal_strlit("txt");
            assert("docx"@.len() != "txt"@.len());
            reveal_strlit("text/plain");
            assert("docx"@.len() != "text/plain"@.len());
            reveal_strlit("pdf");
            assert("docx"@.len() != "pdf"@.len());
            reveal_strlit("application/pdf");
            assert("docx"@.len() != "application/pdf"@.len());
        },
        DocumentType::Pdf => {
            reveal_strlit("pdf");
            reveal_strlit("xlsx");
            assert("pdf"@.len() != "xlsx"@.len());
            reveal_strlit("application/vnd.google-apps.spreadsheet");
            assert("pdf"@.len() != "application/vnd.google-apps.spreadsheet"@.len());
            reveal_strlit("md");
            assert("pdf"@.len() != "md"@.len());
            reveal_strlit("xml");
            assert("pdf"@[0] != "xml"@[0]);
            reveal_strlit("json");
            assert("pdf"@.len() != "json"@.len());
            reveal_strlit("application/json");
            assert("pdf"@.len() != "application/json"@.len());
            reveal_strlit("csv");
            assert("pdf"@[0] != "csv"@[0]);
            reveal_strlit("txt");
            assert("pdf"@[0] != "txt"@[0]);
            reveal_strlit("text/plain");
            assert("pdf"@.len() != "text/plain"@.len());
        },
        DocumentType::Excel => {
            reveal_strlit("xlsx");
        },
    }
}

} // verus!
