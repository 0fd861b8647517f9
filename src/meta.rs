use vstd::prelude::*;
use crate::config::Config;
use crate::errors::KaitaiError;
use crate::identifier::Identifier;
use crate::utils::{all_match, pattern_compiles, rejects_first, validate_values};

verus! {

/// The meta section of a schema.
#[derive(Debug)]
pub struct Meta {
    pub identifier: Identifier,
    pub title: Option<String>,
    pub application: Option<Vec<String>>,
    pub file_extension: Option<Vec<String>>,
    pub xref: XRef,
    pub license: Option<String>,
    pub ks_version: Option<KsVersion>,
    pub ks_debug: bool,
    pub ks_opaque_types: bool,
    pub imports: Option<Vec<String>>,
    pub encoding: Option<String>,
    pub endian: Option<Endian>,
}

impl Meta {
    /// A meta section with nothing set and both flags off.
    pub fn new() -> (r: Self)
        ensures
            r.identifier.value@.len() == 0,
            r.title is None,
            r.application is None,
            r.file_extension is None,
            r.license is None,
            r.ks_version is None,
            !r.ks_debug,
            !r.ks_opaque_types,
            r.imports is None,
            r.encoding is None,
            r.endian is None,
    {
        Meta {
            identifier: Identifier::new(),
            title: None,
            application: None,
            file_extension: None,
            xref: XRef::new(),
            license: None,
            ks_version: None,
            ks_debug: false,
            ks_opaque_types: false,
            imports: None,
            encoding: None,
            endian: None,
        }
    }

    pub fn set_title(&mut self, title: String)
        ensures
            *final(self) == (Meta { title: Some(title), ..*old(self) }),
    {
        self.title = Some(title);
    }

    pub fn set_application(&mut self, values: Vec<String>)
        ensures
            *final(self) == (Meta { application: Some(values), ..*old(self) }),
    {
        self.application = Some(values);
    }

    pub fn set_ks_debug(&mut self, ks_debug: bool)
        ensures
            *final(self) == (Meta { ks_debug, ..*old(self) }),
    {
        self.ks_debug = ks_debug;
    }

    pub fn set_ks_opaque_types(&mut self, ks_opaque_types: bool)
        ensures
            *final(self) == (Meta { ks_opaque_types, ..*old(self) }),
    {
        self.ks_opaque_types = ks_opaque_types;
    }

    pub fn set_license(&mut self, license: String)
        ensures
            *final(self) == (Meta { license: Some(license), ..*old(self) }),
    {
        self.license = Some(license);
    }

    pub fn set_endian(&mut self, endian: EndianEnum)
        ensures
            *final(self) == (Meta { endian: Some(Endian { endian }), ..*old(self) }),
    {
        self.endian = Some(Endian { endian });
    }

    /// Sets the imports, each of which must match the import pattern.
    pub fn set_imports(&mut self, values: Vec<String>) -> (r: Result<(), KaitaiError>)
        ensures
            r is Ok <==> (pattern_compiles(Config::IMPORT_PATTERN@) && all_match(values@, Config::IMPORT_PATTERN@)),
            r is Ok ==> *final(self) == (Meta { imports: Some(values), ..*old(self) }),
            r is Err ==> *final(self) == *old(self),
            r matches Err(e) ==> (e is InvalidValue || e is InvalidPattern),
    {
        match validate_values(values.as_slice(), Config::IMPORT_PATTERN) {
            Ok(()) => {
                self.imports = Some(values);
                Ok(())
            },
            Err(e) => Err(e),
        }
    }

    pub fn set_encoding(&mut self, encoding: String)
        ensures
            *final(self) == (Meta { encoding: Some(encoding), ..*old(self) }),
    {
        self.encoding = Some(encoding);
    }

    pub fn set_file_extension(&mut self, values: Vec<String>)
        ensures
            *final(self) == (Meta { file_extension: Some(values), ..*old(self) }),
    {
        self.file_extension = Some(values);
    }

    pub fn set_ks_version(&mut self, version: KsVersion)
        ensures
            *final(self) == (Meta { ks_version: Some(version), ..*old(self) }),
    {
        self.ks_version = Some(version);
    }
}

/// ForensicsWiki page names, each checked against its pattern.
#[derive(Debug)]
pub struct ForensicWiki {
    pub value: Vec<String>,
}

impl ForensicWiki {
    /// The values, when every one matches the pattern.
    pub fn new(values: Vec<String>) -> (r: Result<Self, KaitaiError>)
        ensures
            r is Ok <==> (pattern_compiles(Config::MEDIA_WIKI_PAGE_NAME_PATTERN@) && all_match(values@, Config::MEDIA_WIKI_PAGE_NAME_PATTERN@)),
            r matches Ok(x) ==> x.value@ == values@,
            r matches Err(e) ==> (e is InvalidValue || e is InvalidPattern),
            pattern_compiles(Config::MEDIA_WIKI_PAGE_NAME_PATTERN@) ==> (r matches Err(e) ==> rejects_first(values@, Config::MEDIA_WIKI_PAGE_NAME_PATTERN@, e)),
    {
        match validate_values(values.as_slice(), Config::MEDIA_WIKI_PAGE_NAME_PATTERN) {
            Ok(()) => Ok(ForensicWiki { value: values }),
            Err(e) => Err(e),
        }
    }

    /// The values.
    pub fn get_values(&self) -> (r: &Vec<String>)
        ensures
            r@ == self.value@,
    {
        &self.value
    }
}
/// ISO standard references, each checked against its pattern.
#[derive(Debug)]
pub struct ISO {
    pub value: Vec<String>,
}

impl ISO {
    /// The values, when every one matches the pattern.
    pub fn new(values: Vec<String>) -> (r: Result<Self, KaitaiError>)
        ensures
            r is Ok <==> (pattern_compiles(Config::ISO_IDENTIFIER_PATTERN@) && all_match(values@, Config::ISO_IDENTIFIER_PATTERN@)),
            r matches Ok(x) ==> x.value@ == values@,
            r matches Err(e) ==> (e is InvalidValue || e is InvalidPattern),
            pattern_compiles(Config::ISO_IDENTIFIER_PATTERN@) ==> (r matches Err(e) ==> rejects_first(values@, Config::ISO_IDENTIFIER_PATTERN@, e)),
    {
        match validate_values(values.as_slice(), Config::ISO_IDENTIFIER_PATTERN) {
            Ok(()) => Ok(ISO { value: values }),
            Err(e) => Err(e),
        }
    }

    /// The values.
    pub fn get_values(&self) -> (r: &Vec<String>)
        ensures
            r@ == self.value@,
    {
        &self.value
    }
}
/// Just Solve the File Format Problem page names, each checked against its pattern.
#[derive(Debug)]
pub struct JustSolve {
    pub value: Vec<String>,
}

impl JustSolve {
    /// The values, when every one matches the pattern.
    pub fn new(values: Vec<String>) -> (r: Result<Self, KaitaiError>)
        ensures
            r is Ok <==> (pattern_compiles(Config::MEDIA_WIKI_PAGE_NAME_PATTERN@) && all_match(values@, Config::MEDIA_WIKI_PAGE_NAME_PATTERN@)),
            r matches Ok(x) ==> x.value@ == values@,
            r matches Err(e) ==> (e is InvalidValue || e is InvalidPattern),
            pattern_compiles(Config::MEDIA_WIKI_PAGE_NAME_PATTERN@) ==> (r matches Err(e) ==> rejects_first(values@, Config::MEDIA_WIKI_PAGE_NAME_PATTERN@, e)),
    {
        match validate_values(values.as_slice(), Config::MEDIA_WIKI_PAGE_NAME_PATTERN) {
            Ok(()) => Ok(JustSolve { value: values }),
            Err(e) => Err(e),
        }
    }

    /// The values.
    pub fn get_values(&self) -> (r: &Vec<String>)
        ensures
            r@ == self.value@,
    {
        &self.value
    }
}
/// Library of Congress identifiers, each checked against its pattern.
#[derive(Debug)]
pub struct LocIdentifier {
    pub value: Vec<String>,
}

impl LocIdentifier {
    /// The values, when every one matches the pattern.
    pub fn new(values: Vec<String>) -> (r: Result<Self, KaitaiError>)
        ensures
            r is Ok <==> (pattern_compiles(Config::LOC_IDENTIFIER_PATTERN@) && all_match(values@, Config::LOC_IDENTIFIER_PATTERN@)),
            r matches Ok(x) ==> x.value@ == values@,
            r matches Err(e) ==> (e is InvalidValue || e is InvalidPattern),
            pattern_compiles(Config::LOC_IDENTIFIER_PATTERN@) ==> (r matches Err(e) ==> rejects_first(values@, Config::LOC_IDENTIFIER_PATTERN@, e)),
    {
        match validate_values(values.as_slice(), Config::LOC_IDENTIFIER_PATTERN) {
            Ok(()) => Ok(LocIdentifier { value: values }),
            Err(e) => Err(e),
        }
    }

    /// The values.
    pub fn get_values(&self) -> (r: &Vec<String>)
        ensures
            r@ == self.value@,
    {
        &self.value
    }
}
/// MIME types, each checked against its pattern.
#[derive(Debug)]
pub struct MIMEType {
    pub value: Vec<String>,
}

impl MIMEType {
    /// The values, when every one matches the pattern.
    pub fn new(values: Vec<String>) -> (r: Result<Self, KaitaiError>)
        ensures
            r is Ok <==> (pattern_compiles(Config::MIME_TYPE_PATTERN@) && all_match(values@, Config::MIME_TYPE_PATTERN@)),
            r matches Ok(x) ==> x.value@ == values@,
            r matches Err(e) ==> (e is InvalidValue || e is InvalidPattern),
            pattern_compiles(Config::MIME_TYPE_PATTERN@) ==> (r matches Err(e) ==> rejects_first(values@, Config::MIME_TYPE_PATTERN@, e)),
    {
        match validate_values(values.as_slice(), Config::MIME_TYPE_PATTERN) {
            Ok(()) => Ok(MIMEType { value: values }),
            Err(e) => Err(e),
        }
    }

    /// The values.
    pub fn get_values(&self) -> (r: &Vec<String>)
        ensures
            r@ == self.value@,
    {
        &self.value
    }
}
/// PRONOM identifiers, each checked against its pattern.
#[derive(Debug)]
pub struct PronomIdentifier {
    pub value: Vec<String>,
}

impl PronomIdentifier {
    /// The values, when every one matches the pattern.
    pub fn new(values: Vec<String>) -> (r: Result<Self, KaitaiError>)
        ensures
            r is Ok <==> (pattern_compiles(Config::PRONOM_IDENTIFIER_PATTERN@) && all_match(values@, Config::PRONOM_IDENTIFIER_PATTERN@)),
            r matches Ok(x) ==> x.value@ == values@,
            r matches Err(e) ==> (e is InvalidValue || e is InvalidPattern),
            pattern_compiles(Config::PRONOM_IDENTIFIER_PATTERN@) ==> (r matches Err(e) ==> rejects_first(values@, Config::PRONOM_IDENTIFIER_PATTERN@, e)),
    {
        match validate_values(values.as_slice(), Config::PRONOM_IDENTIFIER_PATTERN) {
            Ok(()) => Ok(PronomIdentifier { value: values }),
            Err(e) => Err(e),
        }
    }

    /// The values.
    pub fn get_values(&self) -> (r: &Vec<String>)
        ensures
            r@ == self.value@,
    {
        &self.value
    }
}
/// RFC numbers, each checked against its pattern.
#[derive(Debug)]
pub struct RFCIdentifier {
    pub value: Vec<String>,
}

impl RFCIdentifier {
    /// The values, when every one matches the pattern.
    pub fn new(values: Vec<String>) -> (r: Result<Self, KaitaiError>)
        ensures
            r is Ok <==> (pattern_compiles(Config::RFC_IDENTIFIER_PATTERN@) && all_match(values@, Config::RFC_IDENTIFIER_PATTERN@)),
            r matches Ok(x) ==> x.value@ == values@,
            r matches Err(e) ==> (e is InvalidValue || e is InvalidPattern),
            pattern_compiles(Config::RFC_IDENTIFIER_PATTERN@) ==> (r matches Err(e) ==> rejects_first(values@, Config::RFC_IDENTIFIER_PATTERN@, e)),
    {
        match validate_values(values.as_slice(), Config::RFC_IDENTIFIER_PATTERN) {
            Ok(()) => Ok(RFCIdentifier { value: values }),
            Err(e) => Err(e),
        }
    }

    /// The values.
    pub fn get_values(&self) -> (r: &Vec<String>)
        ensures
            r@ == self.value@,
    {
        &self.value
    }
}
/// WikiData identifiers, each checked against its pattern.
#[derive(Debug)]
pub struct WikiDataIdentifier {
    pub value: Vec<String>,
}

impl WikiDataIdentifier {
    /// The values, when every one matches the pattern.
    pub fn new(values: Vec<String>) -> (r: Result<Self, KaitaiError>)
        ensures
            r is Ok <==> (pattern_compiles(Config::WIKI_DATA_IDENTIFIER_PATTERN@) && all_match(values@, Config::WIKI_DATA_IDENTIFIER_PATTERN@)),
            r matches Ok(x) ==> x.value@ == values@,
            r matches Err(e) ==> (e is InvalidValue || e is InvalidPattern),
            pattern_compiles(Config::WIKI_DATA_IDENTIFIER_PATTERN@) ==> (r matches Err(e) ==> rejects_first(values@, Config::WIKI_DATA_IDENTIFIER_PATTERN@, e)),
    {
        match validate_values(values.as_slice(), Config::WIKI_DATA_IDENTIFIER_PATTERN) {
            Ok(()) => Ok(WikiDataIdentifier { value: values }),
            Err(e) => Err(e),
        }
    }

    /// The values.
    pub fn get_values(&self) -> (r: &Vec<String>)
        ensures
            r@ == self.value@,
    {
        &self.value
    }
}

/// Cross references to format registries.
#[derive(Debug)]
pub struct XRef {
    pub forensic_wiki: Option<ForensicWiki>,
    pub iso: Option<ISO>,
    pub justsolve: Option<JustSolve>,
    pub loc: Option<LocIdentifier>,
    pub mime: Option<MIMEType>,
    pub pronom: Option<PronomIdentifier>,
    pub rfc: Option<RFCIdentifier>,
    pub wikidata: Option<WikiDataIdentifier>,
}

impl XRef {
    /// No cross references.
    pub fn new() -> (r: Self)
        ensures
            r.forensic_wiki is None,
            r.iso is None,
            r.justsolve is None,
            r.loc is None,
            r.mime is None,
            r.pronom is None,
            r.rfc is None,
            r.wikidata is None,
    {
        XRef { forensic_wiki: None, iso: None, justsolve: None, loc: None, mime: None, pronom: None, rfc: None, wikidata: None }
    }

    pub fn set_forensic_wiki(&mut self, value: ForensicWiki)
        ensures
            *final(self) == (XRef { forensic_wiki: Some(value), ..*old(self) }),
    {
        self.forensic_wiki = Some(value);
    }

    pub fn set_iso(&mut self, value: ISO)
        ensures
            *final(self) == (XRef { iso: Some(value), ..*old(self) }),
    {
        self.iso = Some(value);
    }

    pub fn set_justsolve(&mut self, value: JustSolve)
        ensures
            *final(self) == (XRef { justsolve: Some(value), ..*old(self) }),
    {
        self.justsolve = Some(value);
    }

    pub fn set_loc(&mut self, value: LocIdentifier)
        ensures
            *final(self) == (XRef { loc: Some(value), ..*old(self) }),
    {
        self.loc = Some(value);
    }

    pub fn set_mime(&mut self, value: MIMEType)
        ensures
            *final(self) == (XRef { mime: Some(value), ..*old(self) }),
    {
        self.mime = Some(value);
    }

    pub fn set_pronom(&mut self, value: PronomIdentifier)
        ensures
            *final(self) == (XRef { pronom: Some(value), ..*old(self) }),
    {
        self.pronom = Some(value);
    }

    pub fn set_rfc(&mut self, value: RFCIdentifier)
        ensures
            *final(self) == (XRef { rfc: Some(value), ..*old(self) }),
    {
        self.rfc = Some(value);
    }

    pub fn set_wikidata(&mut self, value: WikiDataIdentifier)
        ensures
            *final(self) == (XRef { wikidata: Some(value), ..*old(self) }),
    {
        self.wikidata = Some(value);
    }
}

/// The version of the schema language that a schema needs.
#[derive(Debug)]
pub struct KsVersion {
    pub value: KsVersionValue,
}

/// A version as written: text, or a whole number.
#[derive(Debug)]
pub enum KsVersionValue {
    String(String),
    Number(u64),
}

/// The decimal digits of `n`.
pub open spec fn decimal_of(n: nat) -> Seq<char>
    decreases n,
{
    if n < 10 {
        seq![digit_char(n)]
    } else {
        decimal_of(n / 10).push(digit_char(n % 10))
    }
}

/// The character of a decimal digit.
pub open spec fn digit_char(d: nat) -> char {
    if d == 0 { '0' } else if d == 1 { '1' } else if d == 2 { '2' } else if d == 3 { '3' }
    else if d == 4 { '4' } else if d == 5 { '5' } else if d == 6 { '6' } else if d == 7 { '7' }
    else if d == 8 { '8' } else { '9' }
}

fn digit_char_exec(d: u64) -> (r: char)
    requires
        d < 10,
    ensures
        r == digit_char(d as nat),
{
    if d == 0 { '0' } else if d == 1 { '1' } else if d == 2 { '2' } else if d == 3 { '3' }
    else if d == 4 { '4' } else if d == 5 { '5' } else if d == 6 { '6' } else if d == 7 { '7' }
    else if d == 8 { '8' } else { '9' }
}

/// The decimal text of `n`.
pub fn decimal_string(n: u64) -> (r: String)
    ensures
        r@ == decimal_of(n as nat),
    decreases n,
{
    if n < 10 {
        let mut s = String::new();
        s.push(digit_char_exec(n));
        assert(s@ =~= seq![digit_char(n as nat)]);
        s
    } else {
        let mut s = decimal_string(n / 10);
        s.push(digit_char_exec(n % 10));
        s
    }
}

impl KsVersion {
    /// A version from its value.
    pub fn new(value: KsVersionValue) -> (r: KsVersion)
        ensures
            r.value == value,
    {
        KsVersion { value }
    }

    /// The version as text.
    pub fn as_string(&self) -> (r: String)
        ensures
            self.value matches KsVersionValue::String(s) ==> r@ == s@,
            self.value matches KsVersionValue::Number(n) ==> r@ == decimal_of(n as nat),
    {
        match &self.value {
            KsVersionValue::String(s) => s.clone(),
            KsVersionValue::Number(n) => decimal_string(*n),
        }
    }
}

/// Byte orders.
#[derive(Debug, Clone, Copy, PartialEq, Eq, Structural)]
pub enum EndianEnum {
    Le,
    Be,
}

/// The byte order of a schema.
#[derive(Debug, Clone, Copy, PartialEq, Eq, Structural)]
pub struct Endian {
    pub endian: EndianEnum,
}

} // verus!
