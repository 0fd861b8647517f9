use vstd::prelude::*;

verus! {

/// The named, fixed patterns that typed strings of a schema must match.
pub struct Config;

impl Config {
    /// Identifiers of fields, types and the schema itself.
    pub const IDENTIFIER_PATTERN: &'static str = r"^[a-z][a-z0-9_]*$";

    /// MediaWiki page names (forensicswiki, justsolve).
    pub const MEDIA_WIKI_PAGE_NAME_PATTERN: &'static str =
        r"^([A-Za-z0-9$\-._~+!*'(),@&;:/]|%[0-9a-fA-F]{2})+$";

    /// ISO standard references.
    pub const ISO_IDENTIFIER_PATTERN: &'static str = r"^[1-9]\d*(-[0-9]+)?:(19|20)\d{2}$";

    /// MIME types.
    pub const MIME_TYPE_PATTERN: &'static str =
        r"^(application|audio|font|image|model|text|video)/([a-zA-Z0-9]+[.\-_+])*[a-zA-Z0-9]+[.\-_+]?$";

    /// Library of Congress format description identifiers.
    pub const LOC_IDENTIFIER_PATTERN: &'static str = r"^fdd\d{6}$";

    /// PRONOM format identifiers.
    pub const PRONOM_IDENTIFIER_PATTERN: &'static str = r"^(x-)?fmt/\d+$";

    /// RFC numbers.
    pub const RFC_IDENTIFIER_PATTERN: &'static str = r"^[1-9]\d*$";

    /// WikiData item identifiers.
    pub const WIKI_DATA_IDENTIFIER_PATTERN: &'static str = r"^Q[1-9]\d*$";

    /// Import paths.
    pub const IMPORT_PATTERN: &'static str = r"^(.*/)?[a-z][a-z0-9_]*$";

    /// Enum names.
    pub const ENUM_NAME_PATTERN: &'static str = r"^[a-z][a-z0-9_]*$";

    /// Type names, possibly qualified and parameterised.
    pub const TYPE_NAME_PATTERN: &'static str =
        r"^([a-z][a-z0-9_]*::)*[a-z][a-z0-9_]*(\(.+\))?$";

    /// Byte processing specifications.
    pub const PROCESS_PATTERN: &'static str = r"^zlib|(xor|rol|ror)\(.*\)$";

    /// Documentation references: a URL, then optional free text.
    pub const DOCREF_PATTERN: &'static str =
        r"^(?P<URL>https?://(?:www\.)?[-a-zA-Z0-9@:%._\+~#=]{1,256}\.[a-zA-Z0-9()]{1,6}\b(?:[-a-zA-Z0-9()@:%_\+.~#?&/=]*))(\s+(?P<arbitrary_string>.+))?$";
}

} // verus!
