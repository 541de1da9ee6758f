//! What a run knows about a resolved work: the part of its record that
//! the library's decisions read.

use vstd::prelude::*;
use crate::text::{decimal, same};

verus! {

/// The kind of work a record describes.
#[derive(Debug, Clone, Copy, PartialEq, Eq, Structural)]
pub enum EntryType {
    Article,
    Preprint,
    Book,
    Chapter,
    Thesis,
    Report,
    Patent,
    Standard,
}

/// The part of a resolved record the run's decisions read: the
/// identifiers it carries, each in its normalized form, its title, and
/// the kind of work it is.
#[derive(Debug, Clone, PartialEq, Eq)]
pub struct Record {
    pub doi: Option<String>,
    pub arxiv: Option<String>,
    pub pmid: Option<u64>,
    pub isbn: Option<String>,
    pub title: Option<String>,
    pub entry_type: EntryType,
}

/// The entry type a configuration file names `name`, by the variants'
/// own names.
pub open spec fn entry_type_spec(name: Seq<char>) -> Option<EntryType> {
    if name == "article"@ {
        Some(EntryType::Article)
    } else if name == "preprint"@ {
        Some(EntryType::Preprint)
    } else if name == "book"@ {
        Some(EntryType::Book)
    } else if name == "chapter"@ {
        Some(EntryType::Chapter)
    } else if name == "thesis"@ {
        Some(EntryType::Thesis)
    } else if name == "report"@ {
        Some(EntryType::Report)
    } else if name == "patent"@ {
        Some(EntryType::Patent)
    } else if name == "standard"@ {
        Some(EntryType::Standard)
    } else {
        None
    }
}

/// `name` as an entry type, or `None` when no entry type goes by it.
///
/// The names are the variants' own — `article`, `preprint`, `book`,
/// `chapter`, `thesis`, `report`, `patent`, `standard` — so
/// `[templates.article]` means a journal article, as a person means it.
pub fn entry_type(name: &str) -> (r: Option<EntryType>)
    ensures
        r == entry_type_spec(name@),
{
    if same(name, "article") {
        Some(EntryType::Article)
    } else if same(name, "preprint") {
        Some(EntryType::Preprint)
    } else if same(name, "book") {
        Some(EntryType::Book)
    } else if same(name, "chapter") {
        Some(EntryType::Chapter)
    } else if same(name, "thesis") {
        Some(EntryType::Thesis)
    } else if same(name, "report") {
        Some(EntryType::Report)
    } else if same(name, "patent") {
        Some(EntryType::Patent)
    } else if same(name, "standard") {
        Some(EntryType::Standard)
    } else {
        None
    }
}

/// The identifier a record is reported under: its DOI, else its arXiv
/// id, else its PMID in decimal, else its ISBN, and empty when it
/// carries none.
pub open spec fn identifier_spec(record: Record) -> Seq<char> {
    match record.doi {
        Some(doi) => doi@,
        None => match record.arxiv {
            Some(arxiv) => arxiv@,
            None => match record.pmid {
                Some(pmid) => crate::text::decimal_spec(pmid as nat),
                None => match record.isbn {
                    Some(isbn) => isbn@,
                    None => Seq::empty(),
                },
            },
        },
    }
}

/// A record is reported under its DOI whenever it has one; its arXiv
/// id only when it has no DOI; its PubMed id only when it has neither;
/// its ISBN only when it has none of those; and under nothing when it
/// carries no identifier at all.
pub proof fn the_doi_wins(record: Record)
    ensures
        record.doi matches Some(d) ==> identifier_spec(record) == d@,
        record.arxiv matches Some(a) ==> (record.doi is None ==> identifier_spec(record) == a@),
        record.pmid matches Some(n) ==> (record.doi is None && record.arxiv is None
            ==> identifier_spec(record) == crate::text::decimal_spec(n as nat)),
        record.isbn matches Some(i) ==> (record.doi is None && record.arxiv is None && record.pmid is None
            ==> identifier_spec(record) == i@),
        record.doi is None && record.arxiv is None && record.pmid is None && record.isbn is None
            ==> identifier_spec(record).len() == 0,
{
}

/// The identifier `record` is reported under.
pub fn identifier_of(record: &Record) -> (r: String)
    ensures
        r@ == identifier_spec(*record),
        record.doi matches Some(d) ==> r@ == d@,
        record.arxiv matches Some(a) ==> (record.doi is None ==> r@ == a@),
{
    proof {
        the_doi_wins(*record);
    }
    match &record.doi {
        Some(doi) => doi.clone(),
        None => match &record.arxiv {
            Some(arxiv) => arxiv.clone(),
            None => match record.pmid {
                Some(pmid) => decimal(pmid),
                None => match &record.isbn {
                    Some(isbn) => isbn.clone(),
                    None => String::new(),
                },
            },
        },
    }
}

} // verus!
