//! The sources of the live feed: each message comes in an envelope that
//! names its source, and goes on under the short name of that source.

use vstd::prelude::*;
use vstd::string::StringExecFns;

verus! {

/// A source of live messages.
#[allow(clippy::upper_case_acronyms)]
#[derive(Debug, PartialEq, Eq, Clone, Copy, Structural)]
pub enum Source {
    /// Departure times.
    DVS,
    /// Arrival times.
    DAS,
    /// Journeys.
    RIT,
    /// Train positions.
    POS,
}

/// The source that an envelope names, if it names one.
pub open spec fn source_of(envelope: Seq<char>) -> Option<Source> {
    if envelope == "/RIG/InfoPlusDASInterface4"@ {
        Some(Source::DAS)
    } else if envelope == "/RIG/InfoPlusDVSInterface4"@ {
        Some(Source::DVS)
    } else if envelope == "/RIG/InfoPlusRITInterface5"@ {
        Some(Source::RIT)
    } else if envelope == "/RIG/NStreinpositiesInterface5"@ {
        Some(Source::POS)
    } else {
        None
    }
}

impl Source {
    /// The envelope of the messages of the source.
    pub open spec fn envelope(self) -> Seq<char> {
        match self {
            Source::DAS => "/RIG/InfoPlusDASInterface4"@,
            Source::DVS => "/RIG/InfoPlusDVSInterface4"@,
            Source::RIT => "/RIG/InfoPlusRITInterface5"@,
            Source::POS => "/RIG/NStreinpositiesInterface5"@,
        }
    }

    /// The short name of the source.
    pub open spec fn short_name(self) -> Seq<char> {
        match self {
            Source::DAS => "DAS"@,
            Source::DVS => "DVS"@,
            Source::RIT => "RIT"@,
            Source::POS => "POS"@,
        }
    }

    /// The source that an envelope names, if it names one.
    pub fn from_envelope(envelope: &str) -> (r: Option<Self>)
        ensures
            r == source_of(envelope@),
    {
        let envelope = String::from_str(envelope);
        if envelope == String::from_str("/RIG/InfoPlusDASInterface4") {
            Some(Source::DAS)
        } else if envelope == String::from_str("/RIG/InfoPlusDVSInterface4") {
            Some(Source::DVS)
        } else if envelope == String::from_str("/RIG/InfoPlusRITInterface5") {
            Some(Source::RIT)
        } else if envelope == String::from_str("/RIG/NStreinpositiesInterface5") {
            Some(Source::POS)
        } else {
            None
        }
    }

    /// The envelope of the messages of the source.
    pub fn as_envelope(&self) -> (r: &'static str)
        ensures
            r@ == self.envelope(),
    {
        match self {
            Source::DAS => "/RIG/InfoPlusDASInterface4",
            Source::DVS => "/RIG/InfoPlusDVSInterface4",
            Source::RIT => "/RIG/InfoPlusRITInterface5",
            Source::POS => "/RIG/NStreinpositiesInterface5",
        }
    }

    /// The short name of the source.
    pub fn name(&self) -> (r: &'static str)
        ensures
            r@ == self.short_name(),
    {
        match self {
            Source::DAS => "DAS",
            Source::DVS => "DVS",
            Source::RIT => "RIT",
            Source::POS => "POS",
        }
    }
}

/// The envelope of a source names that source and no other.
pub proof fn lemma_envelope_names_source(source: Source)
    ensures
        source_of(source.envelope()) == Some(source),
{
    reveal_strlit("/RIG/InfoPlusDASInterface4");
    reveal_strlit("/RIG/InfoPlusDVSInterface4");
    reveal_strlit("/RIG/InfoPlusRITInterface5");
    reveal_strlit("/RIG/NStreinpositiesInterface5");
    let das = "/RIG/InfoPlusDASInterface4"@;
    let dvs = "/RIG/InfoPlusDVSInterface4"@;
    let rit = "/RIG/InfoPlusRITInterface5"@;
    let pos = "/RIG/NStreinpositiesInterface5"@;
    assert(das[14] == 'A' && dvs[14] == 'V');
    assert(das[13] == 'D' && rit[13] == 'R');
    assert(dvs[13] == 'D');
    assert(das.len() == 26 && dvs.len() == 26 && rit.len() == 26 && pos.len() == 30);
}

} // verus!
