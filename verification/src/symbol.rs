//! Symbols of the code graph: identifiers, kinds, languages, visibility.
use vstd::prelude::*;
use crate::text::{chars_of, append_str, append_chars, string_of, str_eq};
use crate::num::{dec_nat, hex_fixed, fmt_u64, fmt_hex, parse_unsigned, parse_unsigned_chars, lemma_hex_fixed_value, digit_value};
use sha2::Digest;

verus! {

// ---------------------------------------------------------------------------
// SHA-256 (used for content hashes and for stable node identifiers).
// ---------------------------------------------------------------------------

/// The SHA-256 digest of a byte sequence.
pub uninterp spec fn sha256_of(data: Seq<u8>) -> Seq<u8>;

/// `sha2::Sha256::digest`: the SHA-256 digest of `data`. The contract claims only
/// that the result is the digest of the given bytes (a function of them alone).
#[verifier::external_body]
pub(crate) fn sha256(data: &[u8]) -> (r: [u8; 32])
    ensures
        r@ == sha256_of(data@),
{
    sha2::Sha256::digest(data).into()
}

// ---------------------------------------------------------------------------
// Node identifiers.
// ---------------------------------------------------------------------------

/// A stable identifier of a symbol: derived from its file, name, kind and line.
#[derive(Clone, Copy, Debug, PartialEq, Eq, Hash, Structural)]
pub struct NodeId(pub u64);

/// The text that a node identifier is derived from.
pub open spec fn node_id_key(file: Seq<char>, name: Seq<char>, kind: SymbolKind, line: u32) -> Seq<
    char,
> {
    file + seq!['\u{0}'] + name + seq!['\u{0}'] + kind_label(kind) + seq!['\u{0}'] + dec_nat(
        line as nat,
    )
}

/// Big-endian value of the first eight bytes of `b`.
pub open spec fn be_u64(b: Seq<u8>) -> u64 {
    (b[0] as u64) << 56u64 | (b[1] as u64) << 48u64 | (b[2] as u64) << 40u64 | (b[3] as u64)
        << 32u64 | (b[4] as u64) << 24u64 | (b[5] as u64) << 16u64 | (b[6] as u64) << 8u64 | (
    b[7] as u64)
}

/// The identifier of the symbol `name` of kind `kind` at `line` of `file`.
pub open spec fn node_id_of(file: Seq<char>, name: Seq<char>, kind: SymbolKind, line: u32) -> NodeId {
    NodeId(be_u64(sha256_of(vstd::utf8::encode_utf8(node_id_key(file, name, kind, line)))))
}

/// The 16-digit lower-case hexadecimal rendering of an identifier.
pub open spec fn id_hex(id: NodeId) -> Seq<char> {
    hex_fixed(id.0 as nat, 16)
}

impl NodeId {
    /// The identifier of a symbol: the first eight bytes of the SHA-256 digest of
    /// its file, name, kind label and line, separated by NUL characters.
    pub fn new(file: &str, name: &str, kind: SymbolKind, line: u32) -> (r: NodeId)
        ensures
            r == node_id_of(file@, name@, kind, line),
    {
        let mut key = chars_of(file);
        key.push('\u{0}');
        append_str(&mut key, name);
        key.push('\u{0}');
        append_str(&mut key, kind.label());
        key.push('\u{0}');
        let digits = fmt_u64(line as u64);
        append_chars(&mut key, &digits);
        let s = string_of(&key);
        proof {
            assert(key@ =~= node_id_key(file@, name@, kind, line));
        }
        let bytes = s.as_str().as_bytes();
        let d = sha256(bytes);
        NodeId(
            (d[0] as u64) << 56u64 | (d[1] as u64) << 48u64 | (d[2] as u64) << 40u64 | (d[3] as u64)
                << 32u64 | (d[4] as u64) << 24u64 | (d[5] as u64) << 16u64 | (d[6] as u64) << 8u64
                | (d[7] as u64),
        )
    }

    /// The same identifier as `new`, with the signature folded into the name, so
    /// that overloads on one line stay apart.
    pub fn new_with_sig(file: &str, name: &str, sig: &str, kind: SymbolKind, line: u32) -> (r:
        NodeId)
        ensures
            r == node_id_of(file@, name@ + seq!['\u{0}'] + sig@, kind, line),
    {
        let mut full = chars_of(name);
        full.push('\u{0}');
        append_str(&mut full, sig);
        let s = string_of(&full);
        proof {
            assert(full@ =~= name@ + seq!['\u{0}'] + sig@);
        }
        NodeId::new(file, s.as_str(), kind, line)
    }

    /// The identifier as 16 lower-case hexadecimal digits.
    pub fn to_hex(&self) -> (r: String)
        ensures
            r@ == id_hex(*self),
    {
        let v = fmt_hex(self.0, 16);
        string_of(&v)
    }

    /// Parses a hexadecimal identifier (`u64::from_str_radix(s, 16)`).
    pub fn from_hex(s: &str) -> (r: Option<NodeId>)
        ensures
            r matches Some(id) ==> parse_unsigned(s@, 16, u64::MAX as int) == Some(id.0 as int),
            r is None ==> parse_unsigned(s@, 16, u64::MAX as int) is None,
    {
        let v = chars_of(s);
        match parse_unsigned_chars(&v, 16, u64::MAX) {
            Some(n) => Some(NodeId(n)),
            None => None,
        }
    }
}

/// Reading back the hexadecimal rendering of an identifier gives the identifier.
pub proof fn lemma_id_hex_roundtrip(id: NodeId)
    ensures
        parse_unsigned(id_hex(id), 16, u64::MAX as int) == Some(id.0 as int),
{
    lemma_hex_fixed_value(id.0 as nat, 16);
    let h = id_hex(id);
    vstd::arithmetic::power::lemma_pow_positive(16, 16);
    assert(vstd::arithmetic::power::pow(16, 16) == 0x1_0000_0000_0000_0000int) by {
        reveal_with_fuel(vstd::arithmetic::power::pow, 17);
    }
    vstd::arithmetic::div_mod::lemma_small_mod(id.0 as nat, 0x1_0000_0000_0000_0000nat);
    assert(h.len() == 16);
    assert(digit_value(h[0]) < 16);
    assert(h[0] != '+');
}

// ---------------------------------------------------------------------------
// Kinds.
// ---------------------------------------------------------------------------

#[derive(Clone, Copy, Debug, PartialEq, Eq, Hash, Structural)]
pub enum SymbolKind {
    File,
    Module,
    Namespace,
    Package,
    Import,
    Class,
    Struct,
    Enum,
    EnumVariant,
    Trait,
    Interface,
    Record,
    Function,
    Method,
    Constructor,
    Field,
    Property,
    Constant,
    Static,
    TypeAlias,
    Route,
}

/// The label under which a kind is stored and displayed.
pub open spec fn kind_label(k: SymbolKind) -> Seq<char> {
    match k {
        SymbolKind::File => "File"@,
        SymbolKind::Module => "Module"@,
        SymbolKind::Namespace => "Namespace"@,
        SymbolKind::Package => "Package"@,
        SymbolKind::Import => "Import"@,
        SymbolKind::Class => "Class"@,
        SymbolKind::Struct => "Struct"@,
        SymbolKind::Enum => "Enum"@,
        SymbolKind::EnumVariant => "EnumVariant"@,
        SymbolKind::Trait => "Trait"@,
        SymbolKind::Interface => "Interface"@,
        SymbolKind::Record => "Record"@,
        SymbolKind::Function => "Function"@,
        SymbolKind::Method => "Method"@,
        SymbolKind::Constructor => "Constructor"@,
        SymbolKind::Field => "Field"@,
        SymbolKind::Property => "Property"@,
        SymbolKind::Constant => "Constant"@,
        SymbolKind::Static => "Static"@,
        SymbolKind::TypeAlias => "TypeAlias"@,
        SymbolKind::Route => "Route"@,
    }
}

/// The kind stored under a label.
pub open spec fn kind_of_label(s: Seq<char>) -> Option<SymbolKind> {
    if s == "File"@ {
        Some(SymbolKind::File)
    } else if s == "Module"@ {
        Some(SymbolKind::Module)
    } else if s == "Namespace"@ {
        Some(SymbolKind::Namespace)
    } else if s == "Package"@ {
        Some(SymbolKind::Package)
    } else if s == "Import"@ {
        Some(SymbolKind::Import)
    } else if s == "Class"@ {
        Some(SymbolKind::Class)
    } else if s == "Struct"@ {
        Some(SymbolKind::Struct)
    } else if s == "Enum"@ {
        Some(SymbolKind::Enum)
    } else if s == "EnumVariant"@ {
        Some(SymbolKind::EnumVariant)
    } else if s == "Trait"@ {
        Some(SymbolKind::Trait)
    } else if s == "Interface"@ {
        Some(SymbolKind::Interface)
    } else if s == "Record"@ {
        Some(SymbolKind::Record)
    } else if s == "Function"@ {
        Some(SymbolKind::Function)
    } else if s == "Method"@ {
        Some(SymbolKind::Method)
    } else if s == "Constructor"@ {
        Some(SymbolKind::Constructor)
    } else if s == "Field"@ {
        Some(SymbolKind::Field)
    } else if s == "Property"@ {
        Some(SymbolKind::Property)
    } else if s == "Constant"@ {
        Some(SymbolKind::Constant)
    } else if s == "Static"@ {
        Some(SymbolKind::Static)
    } else if s == "TypeAlias"@ {
        Some(SymbolKind::TypeAlias)
    } else if s == "Route"@ {
        Some(SymbolKind::Route)
    } else {
        None
    }
}

impl SymbolKind {
    /// The label of this kind.
    pub fn label(&self) -> (r: &'static str)
        ensures
            r@ == kind_label(*self),
    {
        match self {
            SymbolKind::File => "File",
            SymbolKind::Module => "Module",
            SymbolKind::Namespace => "Namespace",
            SymbolKind::Package => "Package",
            SymbolKind::Import => "Import",
            SymbolKind::Class => "Class",
            SymbolKind::Struct => "Struct",
            SymbolKind::Enum => "Enum",
            SymbolKind::EnumVariant => "EnumVariant",
            SymbolKind::Trait => "Trait",
            SymbolKind::Interface => "Interface",
            SymbolKind::Record => "Record",
            SymbolKind::Function => "Function",
            SymbolKind::Method => "Method",
            SymbolKind::Constructor => "Constructor",
            SymbolKind::Field => "Field",
            SymbolKind::Property => "Property",
            SymbolKind::Constant => "Constant",
            SymbolKind::Static => "Static",
            SymbolKind::TypeAlias => "TypeAlias",
            SymbolKind::Route => "Route",
        }
    }

    /// The kind stored under `s`, if any.
    pub fn from_label(s: &str) -> (r: Option<SymbolKind>)
        ensures
            r == kind_of_label(s@),
    {
        let all = [
            SymbolKind::File,
            SymbolKind::Module,
            SymbolKind::Namespace,
            SymbolKind::Package,
            SymbolKind::Import,
            SymbolKind::Class,
            SymbolKind::Struct,
            SymbolKind::Enum,
            SymbolKind::EnumVariant,
            SymbolKind::Trait,
            SymbolKind::Interface,
            SymbolKind::Record,
            SymbolKind::Function,
            SymbolKind::Method,
            SymbolKind::Constructor,
            SymbolKind::Field,
            SymbolKind::Property,
            SymbolKind::Constant,
            SymbolKind::Static,
            SymbolKind::TypeAlias,
            SymbolKind::Route,
        ];
        let mut i: usize = 0;
        while i < 21
            invariant
                0 <= i <= 21,
                all@ == seq![
                    SymbolKind::File,
                    SymbolKind::Module,
                    SymbolKind::Namespace,
                    SymbolKind::Package,
                    SymbolKind::Import,
                    SymbolKind::Class,
                    SymbolKind::Struct,
                    SymbolKind::Enum,
                    SymbolKind::EnumVariant,
                    SymbolKind::Trait,
                    SymbolKind::Interface,
                    SymbolKind::Record,
                    SymbolKind::Function,
                    SymbolKind::Method,
                    SymbolKind::Constructor,
                    SymbolKind::Field,
                    SymbolKind::Property,
                    SymbolKind::Constant,
                    SymbolKind::Static,
                    SymbolKind::TypeAlias,
                    SymbolKind::Route,
                ],
                forall|j: int| 0 <= j < i ==> s@ != kind_label(#[trigger] all@[j]),
            decreases 21 - i,
        {
            let k = all[i];
            if str_eq(s, k.label()) {
                proof {
                    lemma_kind_label_roundtrip(k);
                    assert forall|j: int| 0 <= j < i implies kind_of_label(kind_label(all@[j]))
                        == Some(all@[j]) by {
                        lemma_kind_label_roundtrip(all@[j]);
                    }
                    lemma_kind_of_label_first(s@, k, all@, i as int);
                }
                return Some(k);
            }
            i = i + 1;
        }
        proof {
            lemma_kind_of_label_none(s@, all@);
        }
        None
    }
}

proof fn lemma_kind_of_label_first(s: Seq<char>, k: SymbolKind, all: Seq<SymbolKind>, i: int)
    requires
        0 <= i < all.len(),
        all[i] == k,
        s == kind_label(k),
        kind_of_label(kind_label(k)) == Some(k),
    ensures
        kind_of_label(s) == Some(k),
{
}

proof fn lemma_kind_of_label_none(s: Seq<char>, all: Seq<SymbolKind>)
    requires
        all == seq![
            SymbolKind::File,
            SymbolKind::Module,
            SymbolKind::Namespace,
            SymbolKind::Package,
            SymbolKind::Import,
            SymbolKind::Class,
            SymbolKind::Struct,
            SymbolKind::Enum,
            SymbolKind::EnumVariant,
            SymbolKind::Trait,
            SymbolKind::Interface,
            SymbolKind::Record,
            SymbolKind::Function,
            SymbolKind::Method,
            SymbolKind::Constructor,
            SymbolKind::Field,
            SymbolKind::Property,
            SymbolKind::Constant,
            SymbolKind::Static,
            SymbolKind::TypeAlias,
            SymbolKind::Route,
        ],
        forall|j: int| 0 <= j < 21 ==> s != kind_label(#[trigger] all[j]),
    ensures
        kind_of_label(s) is None,
{
    assert(s != kind_label(all[0]));
    assert(s != kind_label(all[1]));
    assert(s != kind_label(all[2]));
    assert(s != kind_label(all[3]));
    assert(s != kind_label(all[4]));
    assert(s != kind_label(all[5]));
    assert(s != kind_label(all[6]));
    assert(s != kind_label(all[7]));
    assert(s != kind_label(all[8]));
    assert(s != kind_label(all[9]));
    assert(s != kind_label(all[10]));
    assert(s != kind_label(all[11]));
    assert(s != kind_label(all[12]));
    assert(s != kind_label(all[13]));
    assert(s != kind_label(all[14]));
    assert(s != kind_label(all[15]));
    assert(s != kind_label(all[16]));
    assert(s != kind_label(all[17]));
    assert(s != kind_label(all[18]));
    assert(s != kind_label(all[19]));
    assert(s != kind_label(all[20]));
}

/// Reading back the label of a kind gives the kind.
pub proof fn lemma_kind_label_roundtrip(k: SymbolKind)
    ensures
        kind_of_label(kind_label(k)) == Some(k),
{
    reveal_strlit("File");
    reveal_strlit("Module");
    reveal_strlit("Namespace");
    reveal_strlit("Package");
    reveal_strlit("Import");
    reveal_strlit("Class");
    reveal_strlit("Struct");
    reveal_strlit("Enum");
    reveal_strlit("EnumVariant");
    reveal_strlit("Trait");
    reveal_strlit("Interface");
    reveal_strlit("Record");
    reveal_strlit("Function");
    reveal_strlit("Method");
    reveal_strlit("Constructor");
    reveal_strlit("Field");
    reveal_strlit("Property");
    reveal_strlit("Constant");
    reveal_strlit("Static");
    reveal_strlit("TypeAlias");
    reveal_strlit("Route");
    match k {
        SymbolKind::File => {
        },
        SymbolKind::Module => {
            assert("Module"@ != "File"@) by { assert("Module"@.len() != "File"@.len() || "Module"@[0] != "File"@[0] || "Module"@[1] != "File"@[1] || "Module"@[2] != "File"@[2]); }
        },
        SymbolKind::Namespace => {
            assert("Namespace"@ != "File"@) by { assert("Namespace"@.len() != "File"@.len() || "Namespace"@[0] != "File"@[0] || "Namespace"@[1] != "File"@[1] || "Namespace"@[2] != "File"@[2]); }
            assert("Namespace"@ != "Module"@) by { assert("Namespace"@.len() != "Module"@.len() || "Namespace"@[0] != "Module"@[0] || "Namespace"@[1] != "Module"@[1] || "Namespace"@[2] != "Module"@[2]); }
        },
        SymbolKind::Package => {
            assert("Package"@ != "File"@) by { assert("Package"@.len() != "File"@.len() || "Package"@[0] != "File"@[0] || "Package"@[1] != "File"@[1] || "Package"@[2] != "File"@[2]); }
            assert("Package"@ != "Module"@) by { assert("Package"@.len() != "Module"@.len() || "Package"@[0] != "Module"@[0] || "Package"@[1] != "Module"@[1] || "Package"@[2] != "Module"@[2]); }
            assert("Package"@ != "Namespace"@) by { assert("Package"@.len() != "Namespace"@.len() || "Package"@[0] != "Namespace"@[0] || "Package"@[1] != "Namespace"@[1] || "Package"@[2] != "Namespace"@[2]); }
        },
        SymbolKind::Import => {
            assert("Import"@ != "File"@) by { assert("Import"@.len() != "File"@.len() || "Import"@[0] != "File"@[0] || "Import"@[1] != "File"@[1] || "Import"@[2] != "File"@[2]); }
            assert("Import"@ != "Module"@) by { assert("Import"@.len() != "Module"@.len() || "Import"@[0] != "Module"@[0] || "Import"@[1] != "Module"@[1] || "Import"@[2] != "Module"@[2]); }
            assert("Import"@ != "Namespace"@) by { assert("Import"@.len() != "Namespace"@.len() || "Import"@[0] != "Namespace"@[0] || "Import"@[1] != "Namespace"@[1] || "Import"@[2] != "Namespace"@[2]); }
            assert("Import"@ != "Package"@) by { assert("Import"@.len() != "Package"@.len() || "Import"@[0] != "Package"@[0] || "Import"@[1] != "Package"@[1] || "Import"@[2] != "Package"@[2]); }
        },
        SymbolKind::Class => {
            assert("Class"@ != "File"@) by { assert("Class"@.len() != "File"@.len() || "Class"@[0] != "File"@[0] || "Class"@[1] != "File"@[1] || "Class"@[2] != "File"@[2]); }
            assert("Class"@ != "Module"@) by { assert("Class"@.len() != "Module"@.len() || "Class"@[0] != "Module"@[0] || "Class"@[1] != "Module"@[1] || "Class"@[2] != "Module"@[2]); }
            assert("Class"@ != "Namespace"@) by { assert("Class"@.len() != "Namespace"@.len() || "Class"@[0] != "Namespace"@[0] || "Class"@[1] != "Namespace"@[1] || "Class"@[2] != "Namespace"@[2]); }
            assert("Class"@ != "Package"@) by { assert("Class"@.len() != "Package"@.len() || "Class"@[0] != "Package"@[0] || "Class"@[1] != "Package"@[1] || "Class"@[2] != "Package"@[2]); }
            assert("Class"@ != "Import"@) by { assert("Class"@.len() != "Import"@.len() || "Class"@[0] != "Import"@[0] || "Class"@[1] != "Import"@[1] || "Class"@[2] != "Import"@[2]); }
        },
        SymbolKind::Struct => {
            assert("Struct"@ != "File"@) by { assert("Struct"@.len() != "File"@.len() || "Struct"@[0] != "File"@[0] || "Struct"@[1] != "File"@[1] || "Struct"@[2] != "File"@[2]); }
            assert("Struct"@ != "Module"@) by { assert("Struct"@.len() != "Module"@.len() || "Struct"@[0] != "Module"@[0] || "Struct"@[1] != "Module"@[1] || "Struct"@[2] != "Module"@[2]); }
            assert("Struct"@ != "Namespace"@) by { assert("Struct"@.len() != "Namespace"@.len() || "Struct"@[0] != "Namespace"@[0] || "Struct"@[1] != "Namespace"@[1] || "Struct"@[2] != "Namespace"@[2]); }
            assert("Struct"@ != "Package"@) by { assert("Struct"@.len() != "Package"@.len() || "Struct"@[0] != "Package"@[0] || "Struct"@[1] != "Package"@[1] || "Struct"@[2] != "Package"@[2]); }
            assert("Struct"@ != "Import"@) by { assert("Struct"@.len() != "Import"@.len() || "Struct"@[0] != "Import"@[0] || "Struct"@[1] != "Import"@[1] || "Struct"@[2] != "Import"@[2]); }
            assert("Struct"@ != "Class"@) by { assert("Struct"@.len() != "Class"@.len() || "Struct"@[0] != "Class"@[0] || "Struct"@[1] != "Class"@[1] || "Struct"@[2] != "Class"@[2]); }
        },
        SymbolKind::Enum => {
            assert("Enum"@ != "File"@) by { assert("Enum"@.len() != "File"@.len() || "Enum"@[0] != "File"@[0] || "Enum"@[1] != "File"@[1] || "Enum"@[2] != "File"@[2]); }
            assert("Enum"@ != "Module"@) by { assert("Enum"@.len() != "Module"@.len() || "Enum"@[0] != "Module"@[0] || "Enum"@[1] != "Module"@[1] || "Enum"@[2] != "Module"@[2]); }
            assert("Enum"@ != "Namespace"@) by { assert("Enum"@.len() != "Namespace"@.len() || "Enum"@[0] != "Namespace"@[0] || "Enum"@[1] != "Namespace"@[1] || "Enum"@[2] != "Namespace"@[2]); }
            assert("Enum"@ != "Package"@) by { assert("Enum"@.len() != "Package"@.len() || "Enum"@[0] != "Package"@[0] || "Enum"@[1] != "Package"@[1] || "Enum"@[2] != "Package"@[2]); }
            assert("Enum"@ != "Import"@) by { assert("Enum"@.len() != "Import"@.len() || "Enum"@[0] != "Import"@[0] || "Enum"@[1] != "Import"@[1] || "Enum"@[2] != "Import"@[2]); }
            assert("Enum"@ != "Class"@) by { assert("Enum"@.len() != "Class"@.len() || "Enum"@[0] != "Class"@[0] || "Enum"@[1] != "Class"@[1] || "Enum"@[2] != "Class"@[2]); }
            assert("Enum"@ != "Struct"@) by { assert("Enum"@.len() != "Struct"@.len() || "Enum"@[0] != "Struct"@[0] || "Enum"@[1] != "Struct"@[1] || "Enum"@[2] != "Struct"@[2]); }
        },
        SymbolKind::EnumVariant => {
            assert("EnumVariant"@ != "File"@) by { assert("EnumVariant"@.len() != "File"@.len() || "EnumVariant"@[0] != "File"@[0] || "EnumVariant"@[1] != "File"@[1] || "EnumVariant"@[2] != "File"@[2]); }
            assert("EnumVariant"@ != "Module"@) by { assert("EnumVariant"@.len() != "Module"@.len() || "EnumVariant"@[0] != "Module"@[0] || "EnumVariant"@[1] != "Module"@[1] || "EnumVariant"@[2] != "Module"@[2]); }
            assert("EnumVariant"@ != "Namespace"@) by { assert("EnumVariant"@.len() != "Namespace"@.len() || "EnumVariant"@[0] != "Namespace"@[0] || "EnumVariant"@[1] != "Namespace"@[1] || "EnumVariant"@[2] != "Namespace"@[2]); }
            assert("EnumVariant"@ != "Package"@) by { assert("EnumVariant"@.len() != "Package"@.len() || "EnumVariant"@[0] != "Package"@[0] || "EnumVariant"@[1] != "Package"@[1] || "EnumVariant"@[2] != "Package"@[2]); }
            assert("EnumVariant"@ != "Import"@) by { assert("EnumVariant"@.len() != "Import"@.len() || "EnumVariant"@[0] != "Import"@[0] || "EnumVariant"@[1] != "Import"@[1] || "EnumVariant"@[2] != "Import"@[2]); }
            assert("EnumVariant"@ != "Class"@) by { assert("EnumVariant"@.len() != "Class"@.len() || "EnumVariant"@[0] != "Class"@[0] || "EnumVariant"@[1] != "Class"@[1] || "EnumVariant"@[2] != "Class"@[2]); }
            assert("EnumVariant"@ != "Struct"@) by { assert("EnumVariant"@.len() != "Struct"@.len() || "EnumVariant"@[0] != "Struct"@[0] || "EnumVariant"@[1] != "Struct"@[1] || "EnumVariant"@[2] != "Struct"@[2]); }
            assert("EnumVariant"@ != "Enum"@) by { assert("EnumVariant"@.len() != "Enum"@.len() || "EnumVariant"@[0] != "Enum"@[0] || "EnumVariant"@[1] != "Enum"@[1] || "EnumVariant"@[2] != "Enum"@[2]); }
        },
        SymbolKind::Trait => {
            assert("Trait"@ != "File"@) by { assert("Trait"@.len() != "File"@.len() || "Trait"@[0] != "File"@[0] || "Trait"@[1] != "File"@[1] || "Trait"@[2] != "File"@[2]); }
            assert("Trait"@ != "Module"@) by { assert("Trait"@.len() != "Module"@.len() || "Trait"@[0] != "Module"@[0] || "Trait"@[1] != "Module"@[1] || "Trait"@[2] != "Module"@[2]); }
            assert("Trait"@ != "Namespace"@) by { assert("Trait"@.len() != "Namespace"@.len() || "Trait"@[0] != "Namespace"@[0] || "Trait"@[1] != "Namespace"@[1] || "Trait"@[2] != "Namespace"@[2]); }
            assert("Trait"@ != "Package"@) by { assert("Trait"@.len() != "Package"@.len() || "Trait"@[0] != "Package"@[0] || "Trait"@[1] != "Package"@[1] || "Trait"@[2] != "Package"@[2]); }
            assert("Trait"@ != "Import"@) by { assert("Trait"@.len() != "Import"@.len() || "Trait"@[0] != "Import"@[0] || "Trait"@[1] != "Import"@[1] || "Trait"@[2] != "Import"@[2]); }
            assert("Trait"@ != "Class"@) by { assert("Trait"@.len() != "Class"@.len() || "Trait"@[0] != "Class"@[0] || "Trait"@[1] != "Class"@[1] || "Trait"@[2] != "Class"@[2]); }
            assert("Trait"@ != "Struct"@) by { assert("Trait"@.len() != "Struct"@.len() || "Trait"@[0] != "Struct"@[0] || "Trait"@[1] != "Struct"@[1] || "Trait"@[2] != "Struct"@[2]); }
            assert("Trait"@ != "Enum"@) by { assert("Trait"@.len() != "Enum"@.len() || "Trait"@[0] != "Enum"@[0] || "Trait"@[1] != "Enum"@[1] || "Trait"@[2] != "Enum"@[2]); }
            assert("Trait"@ != "EnumVariant"@) by { assert("Trait"@.len() != "EnumVariant"@.len() || "Trait"@[0] != "EnumVariant"@[0] || "Trait"@[1] != "EnumVariant"@[1] || "Trait"@[2] != "EnumVariant"@[2]); }
        },
        SymbolKind::Interface => {
            assert("Interface"@ != "File"@) by { assert("Interface"@.len() != "File"@.len() || "Interface"@[0] != "File"@[0] || "Interface"@[1] != "File"@[1] || "Interface"@[2] != "File"@[2]); }
            assert("Interface"@ != "Module"@) by { assert("Interface"@.len() != "Module"@.len() || "Interface"@[0] != "Module"@[0] || "Interface"@[1] != "Module"@[1] || "Interface"@[2] != "Module"@[2]); }
            assert("Interface"@ != "Namespace"@) by { assert("Interface"@.len() != "Namespace"@.len() || "Interface"@[0] != "Namespace"@[0] || "Interface"@[1] != "Namespace"@[1] || "Interface"@[2] != "Namespace"@[2]); }
            assert("Interface"@ != "Package"@) by { assert("Interface"@.len() != "Package"@.len() || "Interface"@[0] != "Package"@[0] || "Interface"@[1] != "Package"@[1] || "Interface"@[2] != "Package"@[2]); }
            assert("Interface"@ != "Import"@) by { assert("Interface"@.len() != "Import"@.len() || "Interface"@[0] != "Import"@[0] || "Interface"@[1] != "Import"@[1] || "Interface"@[2] != "Import"@[2]); }
            assert("Interface"@ != "Class"@) by { assert("Interface"@.len() != "Class"@.len() || "Interface"@[0] != "Class"@[0] || "Interface"@[1] != "Class"@[1] || "Interface"@[2] != "Class"@[2]); }
            assert("Interface"@ != "Struct"@) by { assert("Interface"@.len() != "Struct"@.len() || "Interface"@[0] != "Struct"@[0] || "Interface"@[1] != "Struct"@[1] || "Interface"@[2] != "Struct"@[2]); }
            assert("Interface"@ != "Enum"@) by { assert("Interface"@.len() != "Enum"@.len() || "Interface"@[0] != "Enum"@[0] || "Interface"@[1] != "Enum"@[1] || "Interface"@[2] != "Enum"@[2]); }
            assert("Interface"@ != "EnumVariant"@) by { assert("Interface"@.len() != "EnumVariant"@.len() || "Interface"@[0] != "EnumVariant"@[0] || "Interface"@[1] != "EnumVariant"@[1] || "Interface"@[2] != "EnumVariant"@[2]); }
            assert("Interface"@ != "Trait"@) by { assert("Interface"@.len() != "Trait"@.len() || "Interface"@[0] != "Trait"@[0] || "Interface"@[1] != "Trait"@[1] || "Interface"@[2] != "Trait"@[2]); }
        },
        SymbolKind::Record => {
            assert("Record"@ != "File"@) by { assert("Record"@.len() != "File"@.len() || "Record"@[0] != "File"@[0] || "Record"@[1] != "File"@[1] || "Record"@[2] != "File"@[2]); }
            assert("Record"@ != "Module"@) by { assert("Record"@.len() != "Module"@.len() || "Record"@[0] != "Module"@[0] || "Record"@[1] != "Module"@[1] || "Record"@[2] != "Module"@[2]); }
            assert("Record"@ != "Namespace"@) by { assert("Record"@.len() != "Namespace"@.len() || "Record"@[0] != "Namespace"@[0] || "Record"@[1] != "Namespace"@[1] || "Record"@[2] != "Namespace"@[2]); }
            assert("Record"@ != "Package"@) by { assert("Record"@.len() != "Package"@.len() || "Record"@[0] != "Package"@[0] || "Record"@[1] != "Package"@[1] || "Record"@[2] != "Package"@[2]); }
            assert("Record"@ != "Import"@) by { assert("Record"@.len() != "Import"@.len() || "Record"@[0] != "Import"@[0] || "Record"@[1] != "Import"@[1] || "Record"@[2] != "Import"@[2]); }
            assert("Record"@ != "Class"@) by { assert("Record"@.len() != "Class"@.len() || "Record"@[0] != "Class"@[0] || "Record"@[1] != "Class"@[1] || "Record"@[2] != "Class"@[2]); }
            assert("Record"@ != "Struct"@) by { assert("Record"@.len() != "Struct"@.len() || "Record"@[0] != "Struct"@[0] || "Record"@[1] != "Struct"@[1] || "Record"@[2] != "Struct"@[2]); }
            assert("Record"@ != "Enum"@) by { assert("Record"@.len() != "Enum"@.len() || "Record"@[0] != "Enum"@[0] || "Record"@[1] != "Enum"@[1] || "Record"@[2] != "Enum"@[2]); }
            assert("Record"@ != "EnumVariant"@) by { assert("Record"@.len() != "EnumVariant"@.len() || "Record"@[0] != "EnumVariant"@[0] || "Record"@[1] != "EnumVariant"@[1] || "Record"@[2] != "EnumVariant"@[2]); }
            assert("Record"@ != "Trait"@) by { assert("Record"@.len() != "Trait"@.len() || "Record"@[0] != "Trait"@[0] || "Record"@[1] != "Trait"@[1] || "Record"@[2] != "Trait"@[2]); }
            assert("Record"@ != "Interface"@) by { assert("Record"@.len() != "Interface"@.len() || "Record"@[0] != "Interface"@[0] || "Record"@[1] != "Interface"@[1] || "Record"@[2] != "Interface"@[2]); }
        },
        SymbolKind::Function => {
            assert("Function"@ != "File"@) by { assert("Function"@.len() != "File"@.len() || "Function"@[0] != "File"@[0] || "Function"@[1] != "File"@[1] || "Function"@[2] != "File"@[2]); }
            assert("Function"@ != "Module"@) by { assert("Function"@.len() != "Module"@.len() || "Function"@[0] != "Module"@[0] || "Function"@[1] != "Module"@[1] || "Function"@[2] != "Module"@[2]); }
            assert("Function"@ != "Namespace"@) by { assert("Function"@.len() != "Namespace"@.len() || "Function"@[0] != "Namespace"@[0] || "Function"@[1] != "Namespace"@[1] || "Function"@[2] != "Namespace"@[2]); }
            assert("Function"@ != "Package"@) by { assert("Function"@.len() != "Package"@.len() || "Function"@[0] != "Package"@[0] || "Function"@[1] != "Package"@[1] || "Function"@[2] != "Package"@[2]); }
            assert("Function"@ != "Import"@) by { assert("Function"@.len() != "Import"@.len() || "Function"@[0] != "Import"@[0] || "Function"@[1] != "Import"@[1] || "Function"@[2] != "Import"@[2]); }
            assert("Function"@ != "Class"@) by { assert("Function"@.len() != "Class"@.len() || "Function"@[0] != "Class"@[0] || "Function"@[1] != "Class"@[1] || "Function"@[2] != "Class"@[2]); }
            assert("Function"@ != "Struct"@) by { assert("Function"@.len() != "Struct"@.len() || "Function"@[0] != "Struct"@[0] || "Function"@[1] != "Struct"@[1] || "Function"@[2] != "Struct"@[2]); }
            assert("Function"@ != "Enum"@) by { assert("Function"@.len() != "Enum"@.len() || "Function"@[0] != "Enum"@[0] || "Function"@[1] != "Enum"@[1] || "Function"@[2] != "Enum"@[2]); }
            assert("Function"@ != "EnumVariant"@) by { assert("Function"@.len() != "EnumVariant"@.len() || "Function"@[0] != "EnumVariant"@[0] || "Function"@[1] != "EnumVariant"@[1] || "Function"@[2] != "EnumVariant"@[2]); }
            assert("Function"@ != "Trait"@) by { assert("Function"@.len() != "Trait"@.len() || "Function"@[0] != "Trait"@[0] || "Function"@[1] != "Trait"@[1] || "Function"@[2] != "Trait"@[2]); }
            assert("Function"@ != "Interface"@) by { assert("Function"@.len() != "Interface"@.len() || "Function"@[0] != "Interface"@[0] || "Function"@[1] != "Interface"@[1] || "Function"@[2] != "Interface"@[2]); }
            assert("Function"@ != "Record"@) by { assert("Function"@.len() != "Record"@.len() || "Function"@[0] != "Record"@[0] || "Function"@[1] != "Record"@[1] || "Function"@[2] != "Record"@[2]); }
        },
        SymbolKind::Method => {
            assert("Method"@ != "File"@) by { assert("Method"@.len() != "File"@.len() || "Method"@[0] != "File"@[0] || "Method"@[1] != "File"@[1] || "Method"@[2] != "File"@[2]); }
            assert("Method"@ != "Module"@) by { assert("Method"@.len() != "Module"@.len() || "Method"@[0] != "Module"@[0] || "Method"@[1] != "Module"@[1] || "Method"@[2] != "Module"@[2]); }
            assert("Method"@ != "Namespace"@) by { assert("Method"@.len() != "Namespace"@.len() || "Method"@[0] != "Namespace"@[0] || "Method"@[1] != "Namespace"@[1] || "Method"@[2] != "Namespace"@[2]); }
            assert("Method"@ != "Package"@) by { assert("Method"@.len() != "Package"@.len() || "Method"@[0] != "Package"@[0] || "Method"@[1] != "Package"@[1] || "Method"@[2] != "Package"@[2]); }
            assert("Method"@ != "Import"@) by { assert("Method"@.len() != "Import"@.len() || "Method"@[0] != "Import"@[0] || "Method"@[1] != "Import"@[1] || "Method"@[2] != "Import"@[2]); }
            assert("Method"@ != "Class"@) by { assert("Method"@.len() != "Class"@.len() || "Method"@[0] != "Class"@[0] || "Method"@[1] != "Class"@[1] || "Method"@[2] != "Class"@[2]); }
            assert("Method"@ != "Struct"@) by { assert("Method"@.len() != "Struct"@.len() || "Method"@[0] != "Struct"@[0] || "Method"@[1] != "Struct"@[1] || "Method"@[2] != "Struct"@[2]); }
            assert("Method"@ != "Enum"@) by { assert("Method"@.len() != "Enum"@.len() || "Method"@[0] != "Enum"@[0] || "Method"@[1] != "Enum"@[1] || "Method"@[2] != "Enum"@[2]); }
            assert("Method"@ != "EnumVariant"@) by { assert("Method"@.len() != "EnumVariant"@.len() || "Method"@[0] != "EnumVariant"@[0] || "Method"@[1] != "EnumVariant"@[1] || "Method"@[2] != "EnumVariant"@[2]); }
            assert("Method"@ != "Trait"@) by { assert("Method"@.len() != "Trait"@.len() || "Method"@[0] != "Trait"@[0] || "Method"@[1] != "Trait"@[1] || "Method"@[2] != "Trait"@[2]); }
            assert("Method"@ != "Interface"@) by { assert("Method"@.len() != "Interface"@.len() || "Method"@[0] != "Interface"@[0] || "Method"@[1] != "Interface"@[1] || "Method"@[2] != "Interface"@[2]); }
            assert("Method"@ != "Record"@) by { assert("Method"@.len() != "Record"@.len() || "Method"@[0] != "Record"@[0] || "Method"@[1] != "Record"@[1] || "Method"@[2] != "Record"@[2]); }
            assert("Method"@ != "Function"@) by { assert("Method"@.len() != "Function"@.len() || "Method"@[0] != "Function"@[0] || "Method"@[1] != "Function"@[1] || "Method"@[2] != "Function"@[2]); }
        },
        SymbolKind::Constructor => {
            assert("Constructor"@ != "File"@) by { assert("Constructor"@.len() != "File"@.len() || "Constructor"@[0] != "File"@[0] || "Constructor"@[1] != "File"@[1] || "Constructor"@[2] != "File"@[2]); }
            assert("Constructor"@ != "Module"@) by { assert("Constructor"@.len() != "Module"@.len() || "Constructor"@[0] != "Module"@[0] || "Constructor"@[1] != "Module"@[1] || "Constructor"@[2] != "Module"@[2]); }
            assert("Constructor"@ != "Namespace"@) by { assert("Constructor"@.len() != "Namespace"@.len() || "Constructor"@[0] != "Namespace"@[0] || "Constructor"@[1] != "Namespace"@[1] || "Constructor"@[2] != "Namespace"@[2]); }
            assert("Constructor"@ != "Package"@) by { assert("Constructor"@.len() != "Package"@.len() || "Constructor"@[0] != "Package"@[0] || "Constructor"@[1] != "Package"@[1] || "Constructor"@[2] != "Package"@[2]); }
            assert("Constructor"@ != "Import"@) by { assert("Constructor"@.len() != "Import"@.len() || "Constructor"@[0] != "Import"@[0] || "Constructor"@[1] != "Import"@[1] || "Constructor"@[2] != "Import"@[2]); }
            assert("Constructor"@ != "Class"@) by { assert("Constructor"@.len() != "Class"@.len() || "Constructor"@[0] != "Class"@[0] || "Constructor"@[1] != "Class"@[1] || "Constructor"@[2] != "Class"@[2]); }
            assert("Constructor"@ != "Struct"@) by { assert("Constructor"@.len() != "Struct"@.len() || "Constructor"@[0] != "Struct"@[0] || "Constructor"@[1] != "Struct"@[1] || "Constructor"@[2] != "Struct"@[2]); }
            assert("Constructor"@ != "Enum"@) by { assert("Constructor"@.len() != "Enum"@.len() || "Constructor"@[0] != "Enum"@[0] || "Constructor"@[1] != "Enum"@[1] || "Constructor"@[2] != "Enum"@[2]); }
            assert("Constructor"@ != "EnumVariant"@) by { assert("Constructor"@.len() != "EnumVariant"@.len() || "Constructor"@[0] != "EnumVariant"@[0] || "Constructor"@[1] != "EnumVariant"@[1] || "Constructor"@[2] != "EnumVariant"@[2]); }
            assert("Constructor"@ != "Trait"@) by { assert("Constructor"@.len() != "Trait"@.len() || "Constructor"@[0] != "Trait"@[0] || "Constructor"@[1] != "Trait"@[1] || "Constructor"@[2] != "Trait"@[2]); }
            assert("Constructor"@ != "Interface"@) by { assert("Constructor"@.len() != "Interface"@.len() || "Constructor"@[0] != "Interface"@[0] || "Constructor"@[1] != "Interface"@[1] || "Constructor"@[2] != "Interface"@[2]); }
            assert("Constructor"@ != "Record"@) by { assert("Constructor"@.len() != "Record"@.len() || "Constructor"@[0] != "Record"@[0] || "Constructor"@[1] != "Record"@[1] || "Constructor"@[2] != "Record"@[2]); }
            assert("Constructor"@ != "Function"@) by { assert("Constructor"@.len() != "Function"@.len() || "Constructor"@[0] != "Function"@[0] || "Constructor"@[1] != "Function"@[1] || "Constructor"@[2] != "Function"@[2]); }
            assert("Constructor"@ != "Method"@) by { assert("Constructor"@.len() != "Method"@.len() || "Constructor"@[0] != "Method"@[0] || "Constructor"@[1] != "Method"@[1] || "Constructor"@[2] != "Method"@[2]); }
        },
        SymbolKind::Field => {
            assert("Field"@ != "File"@) by { assert("Field"@.len() != "File"@.len() || "Field"@[0] != "File"@[0] || "Field"@[1] != "File"@[1] || "Field"@[2] != "File"@[2]); }
            assert("Field"@ != "Module"@) by { assert("Field"@.len() != "Module"@.len() || "Field"@[0] != "Module"@[0] || "Field"@[1] != "Module"@[1] || "Field"@[2] != "Module"@[2]); }
            assert("Field"@ != "Namespace"@) by { assert("Field"@.len() != "Namespace"@.len() || "Field"@[0] != "Namespace"@[0] || "Field"@[1] != "Namespace"@[1] || "Field"@[2] != "Namespace"@[2]); }
            assert("Field"@ != "Package"@) by { assert("Field"@.len() != "Package"@.len() || "Field"@[0] != "Package"@[0] || "Field"@[1] != "Package"@[1] || "Field"@[2] != "Package"@[2]); }
            assert("Field"@ != "Import"@) by { assert("Field"@.len() != "Import"@.len() || "Field"@[0] != "Import"@[0] || "Field"@[1] != "Import"@[1] || "Field"@[2] != "Import"@[2]); }
            assert("Field"@ != "Class"@) by { assert("Field"@.len() != "Class"@.len() || "Field"@[0] != "Class"@[0] || "Field"@[1] != "Class"@[1] || "Field"@[2] != "Class"@[2]); }
            assert("Field"@ != "Struct"@) by { assert("Field"@.len() != "Struct"@.len() || "Field"@[0] != "Struct"@[0] || "Field"@[1] != "Struct"@[1] || "Field"@[2] != "Struct"@[2]); }
            assert("Field"@ != "Enum"@) by { assert("Field"@.len() != "Enum"@.len() || "Field"@[0] != "Enum"@[0] || "Field"@[1] != "Enum"@[1] || "Field"@[2] != "Enum"@[2]); }
            assert("Field"@ != "EnumVariant"@) by { assert("Field"@.len() != "EnumVariant"@.len() || "Field"@[0] != "EnumVariant"@[0] || "Field"@[1] != "EnumVariant"@[1] || "Field"@[2] != "EnumVariant"@[2]); }
            assert("Field"@ != "Trait"@) by { assert("Field"@.len() != "Trait"@.len() || "Field"@[0] != "Trait"@[0] || "Field"@[1] != "Trait"@[1] || "Field"@[2] != "Trait"@[2]); }
            assert("Field"@ != "Interface"@) by { assert("Field"@.len() != "Interface"@.len() || "Field"@[0] != "Interface"@[0] || "Field"@[1] != "Interface"@[1] || "Field"@[2] != "Interface"@[2]); }
            assert("Field"@ != "Record"@) by { assert("Field"@.len() != "Record"@.len() || "Field"@[0] != "Record"@[0] || "Field"@[1] != "Record"@[1] || "Field"@[2] != "Record"@[2]); }
            assert("Field"@ != "Function"@) by { assert("Field"@.len() != "Function"@.len() || "Field"@[0] != "Function"@[0] || "Field"@[1] != "Function"@[1] || "Field"@[2] != "Function"@[2]); }
            assert("Field"@ != "Method"@) by { assert("Field"@.len() != "Method"@.len() || "Field"@[0] != "Method"@[0] || "Field"@[1] != "Method"@[1] || "Field"@[2] != "Method"@[2]); }
            assert("Field"@ != "Constructor"@) by { assert("Field"@.len() != "Constructor"@.len() || "Field"@[0] != "Constructor"@[0] || "Field"@[1] != "Constructor"@[1] || "Field"@[2] != "Constructor"@[2]); }
        },
        SymbolKind::Property => {
            assert("Property"@ != "File"@) by { assert("Property"@.len() != "File"@.len() || "Property"@[0] != "File"@[0] || "Property"@[1] != "File"@[1] || "Property"@[2] != "File"@[2]); }
            assert("Property"@ != "Module"@) by { assert("Property"@.len() != "Module"@.len() || "Property"@[0] != "Module"@[0] || "Property"@[1] != "Module"@[1] || "Property"@[2] != "Module"@[2]); }
            assert("Property"@ != "Namespace"@) by { assert("Property"@.len() != "Namespace"@.len() || "Property"@[0] != "Namespace"@[0] || "Property"@[1] != "Namespace"@[1] || "Property"@[2] != "Namespace"@[2]); }
            assert("Property"@ != "Package"@) by { assert("Property"@.len() != "Package"@.len() || "Property"@[0] != "Package"@[0] || "Property"@[1] != "Package"@[1] || "Property"@[2] != "Package"@[2]); }
            assert("Property"@ != "Import"@) by { assert("Property"@.len() != "Import"@.len() || "Property"@[0] != "Import"@[0] || "Property"@[1] != "Import"@[1] || "Property"@[2] != "Import"@[2]); }
            assert("Property"@ != "Class"@) by { assert("Property"@.len() != "Class"@.len() || "Property"@[0] != "Class"@[0] || "Property"@[1] != "Class"@[1] || "Property"@[2] != "Class"@[2]); }
            assert("Property"@ != "Struct"@) by { assert("Property"@.len() != "Struct"@.len() || "Property"@[0] != "Struct"@[0] || "Property"@[1] != "Struct"@[1] || "Property"@[2] != "Struct"@[2]); }
            assert("Property"@ != "Enum"@) by { assert("Property"@.len() != "Enum"@.len() || "Property"@[0] != "Enum"@[0] || "Property"@[1] != "Enum"@[1] || "Property"@[2] != "Enum"@[2]); }
            assert("Property"@ != "EnumVariant"@) by { assert("Property"@.len() != "EnumVariant"@.len() || "Property"@[0] != "EnumVariant"@[0] || "Property"@[1] != "EnumVariant"@[1] || "Property"@[2] != "EnumVariant"@[2]); }
            assert("Property"@ != "Trait"@) by { assert("Property"@.len() != "Trait"@.len() || "Property"@[0] != "Trait"@[0] || "Property"@[1] != "Trait"@[1] || "Property"@[2] != "Trait"@[2]); }
            assert("Property"@ != "Interface"@) by { assert("Property"@.len() != "Interface"@.len() || "Property"@[0] != "Interface"@[0] || "Property"@[1] != "Interface"@[1] || "Property"@[2] != "Interface"@[2]); }
            assert("Property"@ != "Record"@) by { assert("Property"@.len() != "Record"@.len() || "Property"@[0] != "Record"@[0] || "Property"@[1] != "Record"@[1] || "Property"@[2] != "Record"@[2]); }
            assert("Property"@ != "Function"@) by { assert("Property"@.len() != "Function"@.len() || "Property"@[0] != "Function"@[0] || "Property"@[1] != "Function"@[1] || "Property"@[2] != "Function"@[2]); }
            assert("Property"@ != "Method"@) by { assert("Property"@.len() != "Method"@.len() || "Property"@[0] != "Method"@[0] || "Property"@[1] != "Method"@[1] || "Property"@[2] != "Method"@[2]); }
            assert("Property"@ != "Constructor"@) by { assert("Property"@.len() != "Constructor"@.len() || "Property"@[0] != "Constructor"@[0] || "Property"@[1] != "Constructor"@[1] || "Property"@[2] != "Constructor"@[2]); }
            assert("Property"@ != "Field"@) by { assert("Property"@.len() != "Field"@.len() || "Property"@[0] != "Field"@[0] || "Property"@[1] != "Field"@[1] || "Property"@[2] != "Field"@[2]); }
        },
        SymbolKind::Constant => {
            assert("Constant"@ != "File"@) by { assert("Constant"@.len() != "File"@.len() || "Constant"@[0] != "File"@[0] || "Constant"@[1] != "File"@[1] || "Constant"@[2] != "File"@[2]); }
            assert("Constant"@ != "Module"@) by { assert("Constant"@.len() != "Module"@.len() || "Constant"@[0] != "Module"@[0] || "Constant"@[1] != "Module"@[1] || "Constant"@[2] != "Module"@[2]); }
            assert("Constant"@ != "Namespace"@) by { assert("Constant"@.len() != "Namespace"@.len() || "Constant"@[0] != "Namespace"@[0] || "Constant"@[1] != "Namespace"@[1] || "Constant"@[2] != "Namespace"@[2]); }
            assert("Constant"@ != "Package"@) by { assert("Constant"@.len() != "Package"@.len() || "Constant"@[0] != "Package"@[0] || "Constant"@[1] != "Package"@[1] || "Constant"@[2] != "Package"@[2]); }
            assert("Constant"@ != "Import"@) by { assert("Constant"@.len() != "Import"@.len() || "Constant"@[0] != "Import"@[0] || "Constant"@[1] != "Import"@[1] || "Constant"@[2] != "Import"@[2]); }
            assert("Constant"@ != "Class"@) by { assert("Constant"@.len() != "Class"@.len() || "Constant"@[0] != "Class"@[0] || "Constant"@[1] != "Class"@[1] || "Constant"@[2] != "Class"@[2]); }
            assert("Constant"@ != "Struct"@) by { assert("Constant"@.len() != "Struct"@.len() || "Constant"@[0] != "Struct"@[0] || "Constant"@[1] != "Struct"@[1] || "Constant"@[2] != "Struct"@[2]); }
            assert("Constant"@ != "Enum"@) by { assert("Constant"@.len() != "Enum"@.len() || "Constant"@[0] != "Enum"@[0] || "Constant"@[1] != "Enum"@[1] || "Constant"@[2] != "Enum"@[2]); }
            assert("Constant"@ != "EnumVariant"@) by { assert("Constant"@.len() != "EnumVariant"@.len() || "Constant"@[0] != "EnumVariant"@[0] || "Constant"@[1] != "EnumVariant"@[1] || "Constant"@[2] != "EnumVariant"@[2]); }
            assert("Constant"@ != "Trait"@) by { assert("Constant"@.len() != "Trait"@.len() || "Constant"@[0] != "Trait"@[0] || "Constant"@[1] != "Trait"@[1] || "Constant"@[2] != "Trait"@[2]); }
            assert("Constant"@ != "Interface"@) by { assert("Constant"@.len() != "Interface"@.len() || "Constant"@[0] != "Interface"@[0] || "Constant"@[1] != "Interface"@[1] || "Constant"@[2] != "Interface"@[2]); }
            assert("Constant"@ != "Record"@) by { assert("Constant"@.len() != "Record"@.len() || "Constant"@[0] != "Record"@[0] || "Constant"@[1] != "Record"@[1] || "Constant"@[2] != "Record"@[2]); }
            assert("Constant"@ != "Function"@) by { assert("Constant"@.len() != "Function"@.len() || "Constant"@[0] != "Function"@[0] || "Constant"@[1] != "Function"@[1] || "Constant"@[2] != "Function"@[2]); }
            assert("Constant"@ != "Method"@) by { assert("Constant"@.len() != "Method"@.len() || "Constant"@[0] != "Method"@[0] || "Constant"@[1] != "Method"@[1] || "Constant"@[2] != "Method"@[2]); }
            assert("Constant"@ != "Constructor"@) by { assert("Constant"@.len() != "Constructor"@.len() || "Constant"@[0] != "Constructor"@[0] || "Constant"@[1] != "Constructor"@[1] || "Constant"@[2] != "Constructor"@[2]); }
            assert("Constant"@ != "Field"@) by { assert("Constant"@.len() != "Field"@.len() || "Constant"@[0] != "Field"@[0] || "Constant"@[1] != "Field"@[1] || "Constant"@[2] != "Field"@[2]); }
            assert("Constant"@ != "Property"@) by { assert("Constant"@.len() != "Property"@.len() || "Constant"@[0] != "Property"@[0] || "Constant"@[1] != "Property"@[1] || "Constant"@[2] != "Property"@[2]); }
        },
        SymbolKind::Static => {
            assert("Static"@ != "File"@) by { assert("Static"@.len() != "File"@.len() || "Static"@[0] != "File"@[0] || "Static"@[1] != "File"@[1] || "Static"@[2] != "File"@[2]); }
            assert("Static"@ != "Module"@) by { assert("Static"@.len() != "Module"@.len() || "Static"@[0] != "Module"@[0] || "Static"@[1] != "Module"@[1] || "Static"@[2] != "Module"@[2]); }
            assert("Static"@ != "Namespace"@) by { assert("Static"@.len() != "Namespace"@.len() || "Static"@[0] != "Namespace"@[0] || "Static"@[1] != "Namespace"@[1] || "Static"@[2] != "Namespace"@[2]); }
            assert("Static"@ != "Package"@) by { assert("Static"@.len() != "Package"@.len() || "Static"@[0] != "Package"@[0] || "Static"@[1] != "Package"@[1] || "Static"@[2] != "Package"@[2]); }
            assert("Static"@ != "Import"@) by { assert("Static"@.len() != "Import"@.len() || "Static"@[0] != "Import"@[0] || "Static"@[1] != "Import"@[1] || "Static"@[2] != "Import"@[2]); }
            assert("Static"@ != "Class"@) by { assert("Static"@.len() != "Class"@.len() || "Static"@[0] != "Class"@[0] || "Static"@[1] != "Class"@[1] || "Static"@[2] != "Class"@[2]); }
            assert("Static"@ != "Struct"@) by { assert("Static"@.len() != "Struct"@.len() || "Static"@[0] != "Struct"@[0] || "Static"@[1] != "Struct"@[1] || "Static"@[2] != "Struct"@[2]); }
            assert("Static"@ != "Enum"@) by { assert("Static"@.len() != "Enum"@.len() || "Static"@[0] != "Enum"@[0] || "Static"@[1] != "Enum"@[1] || "Static"@[2] != "Enum"@[2]); }
            assert("Static"@ != "EnumVariant"@) by { assert("Static"@.len() != "EnumVariant"@.len() || "Static"@[0] != "EnumVariant"@[0] || "Static"@[1] != "EnumVariant"@[1] || "Static"@[2] != "EnumVariant"@[2]); }
            assert("Static"@ != "Trait"@) by { assert("Static"@.len() != "Trait"@.len() || "Static"@[0] != "Trait"@[0] || "Static"@[1] != "Trait"@[1] || "Static"@[2] != "Trait"@[2]); }
            assert("Static"@ != "Interface"@) by { assert("Static"@.len() != "Interface"@.len() || "Static"@[0] != "Interface"@[0] || "Static"@[1] != "Interface"@[1] || "Static"@[2] != "Interface"@[2]); }
            assert("Static"@ != "Record"@) by { assert("Static"@.len() != "Record"@.len() || "Static"@[0] != "Record"@[0] || "Static"@[1] != "Record"@[1] || "Static"@[2] != "Record"@[2]); }
            assert("Static"@ != "Function"@) by { assert("Static"@.len() != "Function"@.len() || "Static"@[0] != "Function"@[0] || "Static"@[1] != "Function"@[1] || "Static"@[2] != "Function"@[2]); }
            assert("Static"@ != "Method"@) by { assert("Static"@.len() != "Method"@.len() || "Static"@[0] != "Method"@[0] || "Static"@[1] != "Method"@[1] || "Static"@[2] != "Method"@[2]); }
            assert("Static"@ != "Constructor"@) by { assert("Static"@.len() != "Constructor"@.len() || "Static"@[0] != "Constructor"@[0] || "Static"@[1] != "Constructor"@[1] || "Static"@[2] != "Constructor"@[2]); }
            assert("Static"@ != "Field"@) by { assert("Static"@.len() != "Field"@.len() || "Static"@[0] != "Field"@[0] || "Static"@[1] != "Field"@[1] || "Static"@[2] != "Field"@[2]); }
            assert("Static"@ != "Property"@) by { assert("Static"@.len() != "Property"@.len() || "Static"@[0] != "Property"@[0] || "Static"@[1] != "Property"@[1] || "Static"@[2] != "Property"@[2]); }
            assert("Static"@ != "Constant"@) by { assert("Static"@.len() != "Constant"@.len() || "Static"@[0] != "Constant"@[0] || "Static"@[1] != "Constant"@[1] || "Static"@[2] != "Constant"@[2]); }
        },
        SymbolKind::TypeAlias => {
            assert("TypeAlias"@ != "File"@) by { assert("TypeAlias"@.len() != "File"@.len() || "TypeAlias"@[0] != "File"@[0] || "TypeAlias"@[1] != "File"@[1] || "TypeAlias"@[2] != "File"@[2]); }
            assert("TypeAlias"@ != "Module"@) by { assert("TypeAlias"@.len() != "Module"@.len() || "TypeAlias"@[0] != "Module"@[0] || "TypeAlias"@[1] != "Module"@[1] || "TypeAlias"@[2] != "Module"@[2]); }
            assert("TypeAlias"@ != "Namespace"@) by { assert("TypeAlias"@.len() != "Namespace"@.len() || "TypeAlias"@[0] != "Namespace"@[0] || "TypeAlias"@[1] != "Namespace"@[1] || "TypeAlias"@[2] != "Namespace"@[2]); }
            assert("TypeAlias"@ != "Package"@) by { assert("TypeAlias"@.len() != "Package"@.len() || "TypeAlias"@[0] != "Package"@[0] || "TypeAlias"@[1] != "Package"@[1] || "TypeAlias"@[2] != "Package"@[2]); }
            assert("TypeAlias"@ != "Import"@) by { assert("TypeAlias"@.len() != "Import"@.len() || "TypeAlias"@[0] != "Import"@[0] || "TypeAlias"@[1] != "Import"@[1] || "TypeAlias"@[2] != "Import"@[2]); }
            assert("TypeAlias"@ != "Class"@) by { assert("TypeAlias"@.len() != "Class"@.len() || "TypeAlias"@[0] != "Class"@[0] || "TypeAlias"@[1] != "Class"@[1] || "TypeAlias"@[2] != "Class"@[2]); }
            assert("TypeAlias"@ != "Struct"@) by { assert("TypeAlias"@.len() != "Struct"@.len() || "TypeAlias"@[0] != "Struct"@[0] || "TypeAlias"@[1] != "Struct"@[1] || "TypeAlias"@[2] != "Struct"@[2]); }
            assert("TypeAlias"@ != "Enum"@) by { assert("TypeAlias"@.len() != "Enum"@.len() || "TypeAlias"@[0] != "Enum"@[0] || "TypeAlias"@[1] != "Enum"@[1] || "TypeAlias"@[2] != "Enum"@[2]); }
            assert("TypeAlias"@ != "EnumVariant"@) by { assert("TypeAlias"@.len() != "EnumVariant"@.len() || "TypeAlias"@[0] != "EnumVariant"@[0] || "TypeAlias"@[1] != "EnumVariant"@[1] || "TypeAlias"@[2] != "EnumVariant"@[2]); }
            assert("TypeAlias"@ != "Trait"@) by { assert("TypeAlias"@.len() != "Trait"@.len() || "TypeAlias"@[0] != "Trait"@[0] || "TypeAlias"@[1] != "Trait"@[1] || "TypeAlias"@[2] != "Trait"@[2]); }
            assert("TypeAlias"@ != "Interface"@) by { assert("TypeAlias"@.len() != "Interface"@.len() || "TypeAlias"@[0] != "Interface"@[0] || "TypeAlias"@[1] != "Interface"@[1] || "TypeAlias"@[2] != "Interface"@[2]); }
            assert("TypeAlias"@ != "Record"@) by { assert("TypeAlias"@.len() != "Record"@.len() || "TypeAlias"@[0] != "Record"@[0] || "TypeAlias"@[1] != "Record"@[1] || "TypeAlias"@[2] != "Record"@[2]); }
            assert("TypeAlias"@ != "Function"@) by { assert("TypeAlias"@.len() != "Function"@.len() || "TypeAlias"@[0] != "Function"@[0] || "TypeAlias"@[1] != "Function"@[1] || "TypeAlias"@[2] != "Function"@[2]); }
            assert("TypeAlias"@ != "Method"@) by { assert("TypeAlias"@.len() != "Method"@.len() || "TypeAlias"@[0] != "Method"@[0] || "TypeAlias"@[1] != "Method"@[1] || "TypeAlias"@[2] != "Method"@[2]); }
            assert("TypeAlias"@ != "Constructor"@) by { assert("TypeAlias"@.len() != "Constructor"@.len() || "TypeAlias"@[0] != "Constructor"@[0] || "TypeAlias"@[1] != "Constructor"@[1] || "TypeAlias"@[2] != "Constructor"@[2]); }
            assert("TypeAlias"@ != "Field"@) by { assert("TypeAlias"@.len() != "Field"@.len() || "TypeAlias"@[0] != "Field"@[0] || "TypeAlias"@[1] != "Field"@[1] || "TypeAlias"@[2] != "Field"@[2]); }
            assert("TypeAlias"@ != "Property"@) by { assert("TypeAlias"@.len() != "Property"@.len() || "TypeAlias"@[0] != "Property"@[0] || "TypeAlias"@[1] != "Property"@[1] || "TypeAlias"@[2] != "Property"@[2]); }
            assert("TypeAlias"@ != "Constant"@) by { assert("TypeAlias"@.len() != "Constant"@.len() || "TypeAlias"@[0] != "Constant"@[0] || "TypeAlias"@[1] != "Constant"@[1] || "TypeAlias"@[2] != "Constant"@[2]); }
            assert("TypeAlias"@ != "Static"@) by { assert("TypeAlias"@.len() != "Static"@.len() || "TypeAlias"@[0] != "Static"@[0] || "TypeAlias"@[1] != "Static"@[1] || "TypeAlias"@[2] != "Static"@[2]); }
        },
        SymbolKind::Route => {
            assert("Route"@ != "File"@) by { assert("Route"@.len() != "File"@.len() || "Route"@[0] != "File"@[0] || "Route"@[1] != "File"@[1] || "Route"@[2] != "File"@[2]); }
            assert("Route"@ != "Module"@) by { assert("Route"@.len() != "Module"@.len() || "Route"@[0] != "Module"@[0] || "Route"@[1] != "Module"@[1] || "Route"@[2] != "Module"@[2]); }
            assert("Route"@ != "Namespace"@) by { assert("Route"@.len() != "Namespace"@.len() || "Route"@[0] != "Namespace"@[0] || "Route"@[1] != "Namespace"@[1] || "Route"@[2] != "Namespace"@[2]); }
            assert("Route"@ != "Package"@) by { assert("Route"@.len() != "Package"@.len() || "Route"@[0] != "Package"@[0] || "Route"@[1] != "Package"@[1] || "Route"@[2] != "Package"@[2]); }
            assert("Route"@ != "Import"@) by { assert("Route"@.len() != "Import"@.len() || "Route"@[0] != "Import"@[0] || "Route"@[1] != "Import"@[1] || "Route"@[2] != "Import"@[2]); }
            assert("Route"@ != "Class"@) by { assert("Route"@.len() != "Class"@.len() || "Route"@[0] != "Class"@[0] || "Route"@[1] != "Class"@[1] || "Route"@[2] != "Class"@[2]); }
            assert("Route"@ != "Struct"@) by { assert("Route"@.len() != "Struct"@.len() || "Route"@[0] != "Struct"@[0] || "Route"@[1] != "Struct"@[1] || "Route"@[2] != "Struct"@[2]); }
            assert("Route"@ != "Enum"@) by { assert("Route"@.len() != "Enum"@.len() || "Route"@[0] != "Enum"@[0] || "Route"@[1] != "Enum"@[1] || "Route"@[2] != "Enum"@[2]); }
            assert("Route"@ != "EnumVariant"@) by { assert("Route"@.len() != "EnumVariant"@.len() || "Route"@[0] != "EnumVariant"@[0] || "Route"@[1] != "EnumVariant"@[1] || "Route"@[2] != "EnumVariant"@[2]); }
            assert("Route"@ != "Trait"@) by { assert("Route"@.len() != "Trait"@.len() || "Route"@[0] != "Trait"@[0] || "Route"@[1] != "Trait"@[1] || "Route"@[2] != "Trait"@[2]); }
            assert("Route"@ != "Interface"@) by { assert("Route"@.len() != "Interface"@.len() || "Route"@[0] != "Interface"@[0] || "Route"@[1] != "Interface"@[1] || "Route"@[2] != "Interface"@[2]); }
            assert("Route"@ != "Record"@) by { assert("Route"@.len() != "Record"@.len() || "Route"@[0] != "Record"@[0] || "Route"@[1] != "Record"@[1] || "Route"@[2] != "Record"@[2]); }
            assert("Route"@ != "Function"@) by { assert("Route"@.len() != "Function"@.len() || "Route"@[0] != "Function"@[0] || "Route"@[1] != "Function"@[1] || "Route"@[2] != "Function"@[2]); }
            assert("Route"@ != "Method"@) by { assert("Route"@.len() != "Method"@.len() || "Route"@[0] != "Method"@[0] || "Route"@[1] != "Method"@[1] || "Route"@[2] != "Method"@[2]); }
            assert("Route"@ != "Constructor"@) by { assert("Route"@.len() != "Constructor"@.len() || "Route"@[0] != "Constructor"@[0] || "Route"@[1] != "Constructor"@[1] || "Route"@[2] != "Constructor"@[2]); }
            assert("Route"@ != "Field"@) by { assert("Route"@.len() != "Field"@.len() || "Route"@[0] != "Field"@[0] || "Route"@[1] != "Field"@[1] || "Route"@[2] != "Field"@[2]); }
            assert("Route"@ != "Property"@) by { assert("Route"@.len() != "Property"@.len() || "Route"@[0] != "Property"@[0] || "Route"@[1] != "Property"@[1] || "Route"@[2] != "Property"@[2]); }
            assert("Route"@ != "Constant"@) by { assert("Route"@.len() != "Constant"@.len() || "Route"@[0] != "Constant"@[0] || "Route"@[1] != "Constant"@[1] || "Route"@[2] != "Constant"@[2]); }
            assert("Route"@ != "Static"@) by { assert("Route"@.len() != "Static"@.len() || "Route"@[0] != "Static"@[0] || "Route"@[1] != "Static"@[1] || "Route"@[2] != "Static"@[2]); }
            assert("Route"@ != "TypeAlias"@) by { assert("Route"@.len() != "TypeAlias"@.len() || "Route"@[0] != "TypeAlias"@[0] || "Route"@[1] != "TypeAlias"@[1] || "Route"@[2] != "TypeAlias"@[2]); }
        },
    }
}

// ---------------------------------------------------------------------------
// Languages and visibility.
// ---------------------------------------------------------------------------

/// A source language the extractors understand.
#[derive(Clone, Copy, Debug, PartialEq, Eq, Hash, Structural)]
pub enum Language {
    Rust,
    Python,
    JavaScript,
    TypeScript,
    CSharp,
    Java,
    Go,
    Php,
    Swift,
}

/// The name under which a language is stored.
pub open spec fn language_name(k: Language) -> Seq<char> {
    match k {
        Language::Rust => "rust"@,
        Language::Python => "python"@,
        Language::JavaScript => "javascript"@,
        Language::TypeScript => "typescript"@,
        Language::CSharp => "csharp"@,
        Language::Java => "java"@,
        Language::Go => "go"@,
        Language::Php => "php"@,
        Language::Swift => "swift"@,
    }
}

/// The language stored under a name.
pub open spec fn language_of_name(s: Seq<char>) -> Option<Language> {
    if s == "rust"@ {
        Some(Language::Rust)
    } else if s == "python"@ {
        Some(Language::Python)
    } else if s == "javascript"@ {
        Some(Language::JavaScript)
    } else if s == "typescript"@ {
        Some(Language::TypeScript)
    } else if s == "csharp"@ {
        Some(Language::CSharp)
    } else if s == "java"@ {
        Some(Language::Java)
    } else if s == "go"@ {
        Some(Language::Go)
    } else if s == "php"@ {
        Some(Language::Php)
    } else if s == "swift"@ {
        Some(Language::Swift)
    } else {
        None
    }
}

impl Language {
    /// The name under which a language is stored.
    pub fn as_str(&self) -> (r: &'static str)
        ensures
            r@ == language_name(*self),
    {
        match self {
            Language::Rust => "rust",
            Language::Python => "python",
            Language::JavaScript => "javascript",
            Language::TypeScript => "typescript",
            Language::CSharp => "csharp",
            Language::Java => "java",
            Language::Go => "go",
            Language::Php => "php",
            Language::Swift => "swift",
        }
    }

    /// The language stored under a name.
    pub fn from_str(s: &str) -> (r: Option<Language>)
        ensures
            r == language_of_name(s@),
    {
        let all = [Language::Rust, Language::Python, Language::JavaScript, Language::TypeScript, Language::CSharp, Language::Java, Language::Go, Language::Php, Language::Swift];
        let mut i: usize = 0;
        while i < 9
            invariant
                0 <= i <= 9,
                all@ == seq![Language::Rust, Language::Python, Language::JavaScript, Language::TypeScript, Language::CSharp, Language::Java, Language::Go, Language::Php, Language::Swift],
                forall|j: int| 0 <= j < i ==> s@ != language_name(#[trigger] all@[j]),
            decreases 9 - i,
        {
            let k = all[i];
            if crate::text::str_eq(s, k.as_str()) {
                proof {
                    lemma_language_name_roundtrip(k);
                }
                return Some(k);
            }
            i = i + 1;
        }
        proof {
            assert(s@ != language_name(all@[0]));
            assert(s@ != language_name(all@[1]));
            assert(s@ != language_name(all@[2]));
            assert(s@ != language_name(all@[3]));
            assert(s@ != language_name(all@[4]));
            assert(s@ != language_name(all@[5]));
            assert(s@ != language_name(all@[6]));
            assert(s@ != language_name(all@[7]));
            assert(s@ != language_name(all@[8]));
        }
        None
    }
}

/// Reading back the label of a value gives the value.
pub proof fn lemma_language_name_roundtrip(k: Language)
    ensures
        language_of_name(language_name(k)) == Some(k),
{
    reveal_strlit("rust");
    reveal_strlit("python");
    reveal_strlit("javascript");
    reveal_strlit("typescript");
    reveal_strlit("csharp");
    reveal_strlit("java");
    reveal_strlit("go");
    reveal_strlit("php");
    reveal_strlit("swift");
    match k {
        Language::Rust => {
        },
        Language::Python => {
            assert("python"@ != "rust"@) by { assert("python"@.len() != "rust"@.len() || "python"@[0] != "rust"@[0] || "python"@[1] != "rust"@[1] || "python"@[2] != "rust"@[2]); }
        },
        Language::JavaScript => {
            assert("javascript"@ != "rust"@) by { assert("javascript"@.len() != "rust"@.len() || "javascript"@[0] != "rust"@[0] || "javascript"@[1] != "rust"@[1] || "javascript"@[2] != "rust"@[2]); }
            assert("javascript"@ != "python"@) by { assert("javascript"@.len() != "python"@.len() || "javascript"@[0] != "python"@[0] || "javascript"@[1] != "python"@[1] || "javascript"@[2] != "python"@[2]); }
        },
        Language::TypeScript => {
            assert("typescript"@ != "rust"@) by { assert("typescript"@.len() != "rust"@.len() || "typescript"@[0] != "rust"@[0] || "typescript"@[1] != "rust"@[1] || "typescript"@[2] != "rust"@[2]); }
            assert("typescript"@ != "python"@) by { assert("typescript"@.len() != "python"@.len() || "typescript"@[0] != "python"@[0] || "typescript"@[1] != "python"@[1] || "typescript"@[2] != "python"@[2]); }
            assert("typescript"@ != "javascript"@) by { assert("typescript"@.len() != "javascript"@.len() || "typescript"@[0] != "javascript"@[0] || "typescript"@[1] != "javascript"@[1] || "typescript"@[2] != "javascript"@[2]); }
        },
        Language::CSharp => {
            assert("csharp"@ != "rust"@) by { assert("csharp"@.len() != "rust"@.len() || "csharp"@[0] != "rust"@[0] || "csharp"@[1] != "rust"@[1] || "csharp"@[2] != "rust"@[2]); }
            assert("csharp"@ != "python"@) by { assert("csharp"@.len() != "python"@.len() || "csharp"@[0] != "python"@[0] || "csharp"@[1] != "python"@[1] || "csharp"@[2] != "python"@[2]); }
            assert("csharp"@ != "javascript"@) by { assert("csharp"@.len() != "javascript"@.len() || "csharp"@[0] != "javascript"@[0] || "csharp"@[1] != "javascript"@[1] || "csharp"@[2] != "javascript"@[2]); }
            assert("csharp"@ != "typescript"@) by { assert("csharp"@.len() != "typescript"@.len() || "csharp"@[0] != "typescript"@[0] || "csharp"@[1] != "typescript"@[1] || "csharp"@[2] != "typescript"@[2]); }
        },
        Language::Java => {
            assert("java"@ != "rust"@) by { assert("java"@.len() != "rust"@.len() || "java"@[0] != "rust"@[0] || "java"@[1] != "rust"@[1] || "java"@[2] != "rust"@[2]); }
            assert("java"@ != "python"@) by { assert("java"@.len() != "python"@.len() || "java"@[0] != "python"@[0] || "java"@[1] != "python"@[1] || "java"@[2] != "python"@[2]); }
            assert("java"@ != "javascript"@) by { assert("java"@.len() != "javascript"@.len() || "java"@[0] != "javascript"@[0] || "java"@[1] != "javascript"@[1] || "java"@[2] != "javascript"@[2]); }
            assert("java"@ != "typescript"@) by { assert("java"@.len() != "typescript"@.len() || "java"@[0] != "typescript"@[0] || "java"@[1] != "typescript"@[1] || "java"@[2] != "typescript"@[2]); }
            assert("java"@ != "csharp"@) by { assert("java"@.len() != "csharp"@.len() || "java"@[0] != "csharp"@[0] || "java"@[1] != "csharp"@[1] || "java"@[2] != "csharp"@[2]); }
        },
        Language::Go => {
            assert("go"@ != "rust"@) by { assert("go"@.len() != "rust"@.len() || "go"@[0] != "rust"@[0] || "go"@[1] != "rust"@[1] || "go"@[2] != "rust"@[2]); }
            assert("go"@ != "python"@) by { assert("go"@.len() != "python"@.len() || "go"@[0] != "python"@[0] || "go"@[1] != "python"@[1] || "go"@[2] != "python"@[2]); }
            assert("go"@ != "javascript"@) by { assert("go"@.len() != "javascript"@.len() || "go"@[0] != "javascript"@[0] || "go"@[1] != "javascript"@[1] || "go"@[2] != "javascript"@[2]); }
            assert("go"@ != "typescript"@) by { assert("go"@.len() != "typescript"@.len() || "go"@[0] != "typescript"@[0] || "go"@[1] != "typescript"@[1] || "go"@[2] != "typescript"@[2]); }
            assert("go"@ != "csharp"@) by { assert("go"@.len() != "csharp"@.len() || "go"@[0] != "csharp"@[0] || "go"@[1] != "csharp"@[1] || "go"@[2] != "csharp"@[2]); }
            assert("go"@ != "java"@) by { assert("go"@.len() != "java"@.len() || "go"@[0] != "java"@[0] || "go"@[1] != "java"@[1] || "go"@[2] != "java"@[2]); }
        },
        Language::Php => {
            assert("php"@ != "rust"@) by { assert("php"@.len() != "rust"@.len() || "php"@[0] != "rust"@[0] || "php"@[1] != "rust"@[1] || "php"@[2] != "rust"@[2]); }
            assert("php"@ != "python"@) by { assert("php"@.len() != "python"@.len() || "php"@[0] != "python"@[0] || "php"@[1] != "python"@[1] || "php"@[2] != "python"@[2]); }
            assert("php"@ != "javascript"@) by { assert("php"@.len() != "javascript"@.len() || "php"@[0] != "javascript"@[0] || "php"@[1] != "javascript"@[1] || "php"@[2] != "javascript"@[2]); }
            assert("php"@ != "typescript"@) by { assert("php"@.len() != "typescript"@.len() || "php"@[0] != "typescript"@[0] || "php"@[1] != "typescript"@[1] || "php"@[2] != "typescript"@[2]); }
            assert("php"@ != "csharp"@) by { assert("php"@.len() != "csharp"@.len() || "php"@[0] != "csharp"@[0] || "php"@[1] != "csharp"@[1] || "php"@[2] != "csharp"@[2]); }
            assert("php"@ != "java"@) by { assert("php"@.len() != "java"@.len() || "php"@[0] != "java"@[0] || "php"@[1] != "java"@[1] || "php"@[2] != "java"@[2]); }
            assert("php"@ != "go"@) by { assert("php"@.len() != "go"@.len() || "php"@[0] != "go"@[0] || "php"@[1] != "go"@[1] || "php"@[2] != "go"@[2]); }
        },
        Language::Swift => {
            assert("swift"@ != "rust"@) by { assert("swift"@.len() != "rust"@.len() || "swift"@[0] != "rust"@[0] || "swift"@[1] != "rust"@[1] || "swift"@[2] != "rust"@[2]); }
            assert("swift"@ != "python"@) by { assert("swift"@.len() != "python"@.len() || "swift"@[0] != "python"@[0] || "swift"@[1] != "python"@[1] || "swift"@[2] != "python"@[2]); }
            assert("swift"@ != "javascript"@) by { assert("swift"@.len() != "javascript"@.len() || "swift"@[0] != "javascript"@[0] || "swift"@[1] != "javascript"@[1] || "swift"@[2] != "javascript"@[2]); }
            assert("swift"@ != "typescript"@) by { assert("swift"@.len() != "typescript"@.len() || "swift"@[0] != "typescript"@[0] || "swift"@[1] != "typescript"@[1] || "swift"@[2] != "typescript"@[2]); }
            assert("swift"@ != "csharp"@) by { assert("swift"@.len() != "csharp"@.len() || "swift"@[0] != "csharp"@[0] || "swift"@[1] != "csharp"@[1] || "swift"@[2] != "csharp"@[2]); }
            assert("swift"@ != "java"@) by { assert("swift"@.len() != "java"@.len() || "swift"@[0] != "java"@[0] || "swift"@[1] != "java"@[1] || "swift"@[2] != "java"@[2]); }
            assert("swift"@ != "go"@) by { assert("swift"@.len() != "go"@.len() || "swift"@[0] != "go"@[0] || "swift"@[1] != "go"@[1] || "swift"@[2] != "go"@[2]); }
            assert("swift"@ != "php"@) by { assert("swift"@.len() != "php"@.len() || "swift"@[0] != "php"@[0] || "swift"@[1] != "php"@[1] || "swift"@[2] != "php"@[2]); }
        },
    }
}

/// Declared visibility of a symbol.
#[derive(Clone, Copy, Debug, PartialEq, Eq, Hash, Structural)]
pub enum Visibility {
    Public,
    Private,
    Protected,
    Internal,
}

/// The name under which a visibility is stored.
pub open spec fn visibility_name(k: Visibility) -> Seq<char> {
    match k {
        Visibility::Public => "Public"@,
        Visibility::Private => "Private"@,
        Visibility::Protected => "Protected"@,
        Visibility::Internal => "Internal"@,
    }
}

/// The visibility stored under a name.
pub open spec fn visibility_of_name(s: Seq<char>) -> Option<Visibility> {
    if s == "Public"@ {
        Some(Visibility::Public)
    } else if s == "Private"@ {
        Some(Visibility::Private)
    } else if s == "Protected"@ {
        Some(Visibility::Protected)
    } else if s == "Internal"@ {
        Some(Visibility::Internal)
    } else {
        None
    }
}

impl Visibility {
    /// The name under which a visibility is stored.
    pub fn as_debug_str(&self) -> (r: &'static str)
        ensures
            r@ == visibility_name(*self),
    {
        match self {
            Visibility::Public => "Public",
            Visibility::Private => "Private",
            Visibility::Protected => "Protected",
            Visibility::Internal => "Internal",
        }
    }

    /// The visibility stored under a name.
    pub fn parse_debug_str(s: &str) -> (r: Option<Visibility>)
        ensures
            r == visibility_of_name(s@),
    {
        let all = [Visibility::Public, Visibility::Private, Visibility::Protected, Visibility::Internal];
        let mut i: usize = 0;
        while i < 4
            invariant
                0 <= i <= 4,
                all@ == seq![Visibility::Public, Visibility::Private, Visibility::Protected, Visibility::Internal],
                forall|j: int| 0 <= j < i ==> s@ != visibility_name(#[trigger] all@[j]),
            decreases 4 - i,
        {
            let k = all[i];
            if crate::text::str_eq(s, k.as_debug_str()) {
                proof {
                    lemma_visibility_name_roundtrip(k);
                }
                return Some(k);
            }
            i = i + 1;
        }
        proof {
            assert(s@ != visibility_name(all@[0]));
            assert(s@ != visibility_name(all@[1]));
            assert(s@ != visibility_name(all@[2]));
            assert(s@ != visibility_name(all@[3]));
        }
        None
    }
}

/// Reading back the label of a value gives the value.
pub proof fn lemma_visibility_name_roundtrip(k: Visibility)
    ensures
        visibility_of_name(visibility_name(k)) == Some(k),
{
    reveal_strlit("Public");
    reveal_strlit("Private");
    reveal_strlit("Protected");
    reveal_strlit("Internal");
    match k {
        Visibility::Public => {
        },
        Visibility::Private => {
            assert("Private"@ != "Public"@) by { assert("Private"@.len() != "Public"@.len() || "Private"@[0] != "Public"@[0] || "Private"@[1] != "Public"@[1] || "Private"@[2] != "Public"@[2]); }
        },
        Visibility::Protected => {
            assert("Protected"@ != "Public"@) by { assert("Protected"@.len() != "Public"@.len() || "Protected"@[0] != "Public"@[0] || "Protected"@[1] != "Public"@[1] || "Protected"@[2] != "Public"@[2]); }
            assert("Protected"@ != "Private"@) by { assert("Protected"@.len() != "Private"@.len() || "Protected"@[0] != "Private"@[0] || "Protected"@[1] != "Private"@[1] || "Protected"@[2] != "Private"@[2]); }
        },
        Visibility::Internal => {
            assert("Internal"@ != "Public"@) by { assert("Internal"@.len() != "Public"@.len() || "Internal"@[0] != "Public"@[0] || "Internal"@[1] != "Public"@[1] || "Internal"@[2] != "Public"@[2]); }
            assert("Internal"@ != "Private"@) by { assert("Internal"@.len() != "Private"@.len() || "Internal"@[0] != "Private"@[0] || "Internal"@[1] != "Private"@[1] || "Internal"@[2] != "Private"@[2]); }
            assert("Internal"@ != "Protected"@) by { assert("Internal"@.len() != "Protected"@.len() || "Internal"@[0] != "Protected"@[0] || "Internal"@[1] != "Protected"@[1] || "Internal"@[2] != "Protected"@[2]); }
        },
    }
}


impl Visibility {
    /// The visibility stored under a name; anything unknown reads as private.
    pub fn from_debug_str(s: &str) -> (r: Visibility)
        ensures
            r == (match visibility_of_name(s@) {
                Some(v) => v,
                None => Visibility::Private,
            }),
    {
        match Visibility::parse_debug_str(s) {
            Some(v) => v,
            None => Visibility::Private,
        }
    }
}

/// The language of a file extension.
pub open spec fn language_of_extension(e: Seq<char>) -> Option<Language> {
    if e == "rs"@ {
        Some(Language::Rust)
    } else if e == "py"@ {
        Some(Language::Python)
    } else if e == "js"@ || e == "jsx"@ || e == "mjs"@ || e == "cjs"@ {
        Some(Language::JavaScript)
    } else if e == "ts"@ || e == "tsx"@ {
        Some(Language::TypeScript)
    } else if e == "cs"@ {
        Some(Language::CSharp)
    } else if e == "java"@ {
        Some(Language::Java)
    } else if e == "go"@ {
        Some(Language::Go)
    } else if e == "php"@ {
        Some(Language::Php)
    } else if e == "swift"@ {
        Some(Language::Swift)
    } else {
        None
    }
}

impl Language {
    /// The language of files with extension `ext`.
    pub fn from_extension(ext: &str) -> (r: Option<Language>)
        ensures
            r == language_of_extension(ext@),
    {
        if str_eq(ext, "rs") {
            Some(Language::Rust)
        } else if str_eq(ext, "py") {
            Some(Language::Python)
        } else if str_eq(ext, "js") || str_eq(ext, "jsx") || str_eq(ext, "mjs") || str_eq(ext, "cjs") {
            Some(Language::JavaScript)
        } else if str_eq(ext, "ts") || str_eq(ext, "tsx") {
            Some(Language::TypeScript)
        } else if str_eq(ext, "cs") {
            Some(Language::CSharp)
        } else if str_eq(ext, "java") {
            Some(Language::Java)
        } else if str_eq(ext, "go") {
            Some(Language::Go)
        } else if str_eq(ext, "php") {
            Some(Language::Php)
        } else if str_eq(ext, "swift") {
            Some(Language::Swift)
        } else {
            None
        }
    }
}

// ---------------------------------------------------------------------------
// Symbols.
// ---------------------------------------------------------------------------

/// One structural element of the code (file, type, function, import, ...).
#[derive(Debug)]
pub struct SymbolNode {
    pub id: NodeId,
    /// Qualified name, e.g. `ClassName.method`.
    pub name: String,
    pub kind: SymbolKind,
    pub file_path: String,
    /// First and last line (0-based).
    pub line_range: (u32, u32),
    pub signature: Option<String>,
    pub doc_comment: Option<String>,
    pub visibility: Visibility,
    pub language: Language,
    /// The containing symbol, if any.
    pub parent: Option<NodeId>,
}

/// The mathematical value of a symbol: its strings as character sequences.
pub struct SymbolView {
    pub id: NodeId,
    pub name: Seq<char>,
    pub kind: SymbolKind,
    pub file_path: Seq<char>,
    pub line_range: (u32, u32),
    pub signature: Option<Seq<char>>,
    pub doc_comment: Option<Seq<char>>,
    pub visibility: Visibility,
    pub language: Language,
    pub parent: Option<NodeId>,
}

pub open spec fn opt_view(o: Option<String>) -> Option<Seq<char>> {
    match o {
        Some(s) => Some(s@),
        None => None,
    }
}

impl View for SymbolNode {
    type V = SymbolView;

    open spec fn view(&self) -> SymbolView {
        SymbolView {
            id: self.id,
            name: self.name@,
            kind: self.kind,
            file_path: self.file_path@,
            line_range: self.line_range,
            signature: opt_view(self.signature),
            doc_comment: opt_view(self.doc_comment),
            visibility: self.visibility,
            language: self.language,
            parent: self.parent,
        }
    }
}

/// A copy of an optional string.
pub fn copy_opt(o: &Option<String>) -> (r: Option<String>)
    ensures
        opt_view(r) == opt_view(*o),
{
    match o {
        Some(s) => Some(s.clone()),
        None => None,
    }
}

impl SymbolNode {
    /// A copy of this symbol.
    pub fn duplicate(&self) -> (r: SymbolNode)
        ensures
            r@ == self@,
    {
        SymbolNode {
            id: self.id,
            name: self.name.clone(),
            kind: self.kind,
            file_path: self.file_path.clone(),
            line_range: self.line_range,
            signature: copy_opt(&self.signature),
            doc_comment: copy_opt(&self.doc_comment),
            visibility: self.visibility,
            language: self.language,
            parent: self.parent,
        }
    }
}

} // verus!
