//! Domain models: who made a work, and in which role.

use vstd::prelude::*;
use crate::text::{trim, trim_str, str_to_uppercase, str_eq};

verus! {

/// The identity of a party: an IPI number, an ISNI, or both.
#[derive(Debug, PartialEq)]
pub enum PartyId {
    /// IPI number.
    Ipi(u64),
    /// ISNI.
    Isni(String),
    /// Both IPI and ISNI.
    Both { ipi: u64, isni: String },
}

/// The content of a [`PartyId`].
pub enum Party {
    Ipi(nat),
    Isni(Seq<char>),
    Both { ipi: nat, isni: Seq<char> },
}

impl View for PartyId {
    type V = Party;

    open spec fn view(&self) -> Party {
        match self {
            PartyId::Ipi(i) => Party::Ipi(*i as nat),
            PartyId::Isni(s) => Party::Isni(s@),
            PartyId::Both { ipi, isni } => Party::Both { ipi: *ipi as nat, isni: isni@ },
        }
    }
}

/// The identity that two optional codes give.
pub open spec fn party_of(ipi: Option<u64>, isni: Option<String>) -> Option<Party> {
    match (ipi, isni) {
        (Some(i), Some(s)) => Some(Party::Both { ipi: i as nat, isni: s@ }),
        (Some(i), None) => Some(Party::Ipi(i as nat)),
        (None, Some(s)) => Some(Party::Isni(s@)),
        (None, None) => None,
    }
}

/// The content of an identity, if there is one.
pub open spec fn option_party(o: Option<PartyId>) -> Option<Party> {
    match o {
        Some(p) => Some(p@),
        None => None,
    }
}

impl PartyId {
    /// The identity that two optional codes give; none where both are missing.
    pub fn from_optional(ipi: Option<u64>, isni: Option<String>) -> (r: Option<Self>)
        ensures
            option_party(r) == party_of(ipi, isni),
    {
        match (ipi, isni) {
            (Some(i), Some(s)) => Some(PartyId::Both { ipi: i, isni: s }),
            (Some(i), None) => Some(PartyId::Ipi(i)),
            (None, Some(s)) => Some(PartyId::Isni(s)),
            (None, None) => None,
        }
    }

    /// The IPI, if present.
    pub fn ipi(&self) -> (r: Option<u64>)
        ensures
            r == (match self@ {
                Party::Ipi(i) => Some(i as u64),
                Party::Both { ipi, isni } => Some(ipi as u64),
                Party::Isni(_) => None,
            }),
    {
        match self {
            PartyId::Ipi(i) => Some(*i),
            PartyId::Both { ipi, .. } => Some(*ipi),
            PartyId::Isni(_) => None,
        }
    }

    /// The ISNI, if present.
    pub fn isni(&self) -> (r: Option<&str>)
        ensures
            match r {
                Some(s) => self@ is Isni && self@->Isni_0 == s@ || self@ is Both && self@->isni
                    == s@,
                None => self@ is Ipi,
            },
    {
        match self {
            PartyId::Isni(s) => Some(s.as_str()),
            PartyId::Both { isni, .. } => Some(isni.as_str()),
            PartyId::Ipi(_) => None,
        }
    }
}

impl Clone for PartyId {
    fn clone(&self) -> (r: Self)
        ensures
            r@ == self@,
    {
        match self {
            PartyId::Ipi(i) => PartyId::Ipi(*i),
            PartyId::Isni(s) => PartyId::Isni(s.clone()),
            PartyId::Both { ipi, isni } => PartyId::Both { ipi: *ipi, isni: isni.clone() },
        }
    }
}

/// The role of a creator in a work, after the CISAC role codes.
#[derive(Debug, Clone, Copy, PartialEq, Eq, Structural)]
pub enum CreatorRole {
    /// Composer (C).
    Composer,
    /// Author (A).
    Author,
    /// Composer and author (CA).
    ComposerAuthor,
    /// Arranger (AR).
    Arranger,
    /// Adapter (AD).
    Adapter,
    /// Translator (TR).
    Translator,
    /// Sub-author (SA).
    SubAuthor,
    /// Sub-arranger (SR).
    SubArranger,
    /// Publisher (E).
    Publisher,
    /// Original publisher (SE).
    OriginalPublisher,
    /// Sub-publisher (ES).
    SubPublisher,
}

/// The role that a code stands for, the code being trimmed and in uppercase.
pub open spec fn role_of(n: Seq<char>) -> Option<CreatorRole> {
    if n == "C"@ || n == "COMPOSER"@ || n == "COMPOSITEUR"@ {
        Some(CreatorRole::Composer)
    } else if n == "A"@ || n == "AUTHOR"@ || n == "AUTEUR"@ || n == "LYRICIST"@ || n
        == "PAROLIER"@ {
        Some(CreatorRole::Author)
    } else if n == "CA"@ || n == "COMPOSER_AUTHOR"@ || n == "AUTEUR-COMPOSITEUR"@ {
        Some(CreatorRole::ComposerAuthor)
    } else if n == "AR"@ || n == "ARRANGER"@ || n == "ARRANGEUR"@ {
        Some(CreatorRole::Arranger)
    } else if n == "AD"@ || n == "ADAPTER"@ || n == "ADAPTATEUR"@ {
        Some(CreatorRole::Adapter)
    } else if n == "TR"@ || n == "TRANSLATOR"@ || n == "TRADUCTEUR"@ {
        Some(CreatorRole::Translator)
    } else if n == "SA"@ || n == "SUB_AUTHOR"@ || n == "SOUS-AUTEUR"@ {
        Some(CreatorRole::SubAuthor)
    } else if n == "SR"@ || n == "SUB_ARRANGER"@ || n == "SOUS-ARRANGEUR"@ {
        Some(CreatorRole::SubArranger)
    } else if n == "E"@ || n == "PUBLISHER"@ || n == "EDITEUR"@ {
        Some(CreatorRole::Publisher)
    } else if n == "SE"@ || n == "ORIGINAL_PUBLISHER"@ || n == "EDITEUR_ORIGINAL"@ {
        Some(CreatorRole::OriginalPublisher)
    } else if n == "ES"@ || n == "SUB_PUBLISHER"@ || n == "SOUS-EDITEUR"@ {
        Some(CreatorRole::SubPublisher)
    } else {
        None
    }
}

/// The code of a role.
pub open spec fn code_of(role: CreatorRole) -> Seq<char> {
    match role {
        CreatorRole::Composer => "C"@,
        CreatorRole::Author => "A"@,
        CreatorRole::ComposerAuthor => "CA"@,
        CreatorRole::Arranger => "AR"@,
        CreatorRole::Adapter => "AD"@,
        CreatorRole::Translator => "TR"@,
        CreatorRole::SubAuthor => "SA"@,
        CreatorRole::SubArranger => "SR"@,
        CreatorRole::Publisher => "E"@,
        CreatorRole::OriginalPublisher => "SE"@,
        CreatorRole::SubPublisher => "ES"@,
    }
}

impl CreatorRole {
    /// The role that a code or a name stands for, whatever its case and the
    /// whitespace around it.
    pub fn from_code(code: &str) -> (r: Option<Self>)
        ensures
            r == role_of(str_to_uppercase(trim(code@))),
    {
        let trimmed = trim_str(code);
        let normalized = trimmed.as_str().to_uppercase();
        let n = normalized.as_str();
        if str_eq(n, "C") || str_eq(n, "COMPOSER") || str_eq(n, "COMPOSITEUR") {
            Some(CreatorRole::Composer)
        } else if str_eq(n, "A") || str_eq(n, "AUTHOR") || str_eq(n, "AUTEUR") || str_eq(
            n,
            "LYRICIST",
        ) || str_eq(n, "PAROLIER") {
            Some(CreatorRole::Author)
        } else if str_eq(n, "CA") || str_eq(n, "COMPOSER_AUTHOR") || str_eq(
            n,
            "AUTEUR-COMPOSITEUR",
        ) {
            Some(CreatorRole::ComposerAuthor)
        } else if str_eq(n, "AR") || str_eq(n, "ARRANGER") || str_eq(n, "ARRANGEUR") {
            Some(CreatorRole::Arranger)
        } else if str_eq(n, "AD") || str_eq(n, "ADAPTER") || str_eq(n, "ADAPTATEUR") {
            Some(CreatorRole::Adapter)
        } else if str_eq(n, "TR") || str_eq(n, "TRANSLATOR") || str_eq(n, "TRADUCTEUR") {
            Some(CreatorRole::Translator)
        } else if str_eq(n, "SA") || str_eq(n, "SUB_AUTHOR") || str_eq(n, "SOUS-AUTEUR") {
            Some(CreatorRole::SubAuthor)
        } else if str_eq(n, "SR") || str_eq(n, "SUB_ARRANGER") || str_eq(n, "SOUS-ARRANGEUR") {
            Some(CreatorRole::SubArranger)
        } else if str_eq(n, "E") || str_eq(n, "PUBLISHER") || str_eq(n, "EDITEUR") {
            Some(CreatorRole::Publisher)
        } else if str_eq(n, "SE") || str_eq(n, "ORIGINAL_PUBLISHER") || str_eq(
            n,
            "EDITEUR_ORIGINAL",
        ) {
            Some(CreatorRole::OriginalPublisher)
        } else if str_eq(n, "ES") || str_eq(n, "SUB_PUBLISHER") || str_eq(n, "SOUS-EDITEUR") {
            Some(CreatorRole::SubPublisher)
        } else {
            None
        }
    }

    /// The code of the role.
    pub fn to_code(&self) -> (r: &'static str)
        ensures
            r@ == code_of(*self),
    {
        match self {
            CreatorRole::Composer => "C",
            CreatorRole::Author => "A",
            CreatorRole::ComposerAuthor => "CA",
            CreatorRole::Arranger => "AR",
            CreatorRole::Adapter => "AD",
            CreatorRole::Translator => "TR",
            CreatorRole::SubAuthor => "SA",
            CreatorRole::SubArranger => "SR",
            CreatorRole::Publisher => "E",
            CreatorRole::OriginalPublisher => "SE",
            CreatorRole::SubPublisher => "ES",
        }
    }
}

/// The kind of a musical work.
#[derive(Debug, Clone, Copy, PartialEq, Eq, Structural)]
pub enum MusicalWorkType {
    /// Original composition.
    Original,
    /// Arrangement of an existing work.
    Arrangement,
    /// Composite work.
    Composite,
    /// Excerpt from a larger work.
    Excerpt,
    /// Not specified.
    Unspecified,
}

impl Default for MusicalWorkType {
    fn default() -> (r: Self)
        ensures
            r == MusicalWorkType::Original,
    {
        MusicalWorkType::Original
    }
}

} // verus!
