//! Session descriptions: the media attributes of an accepted reply, and the
//! table from payload type to codec name that its payload mappings define.

use std::collections::HashMap;
use vstd::prelude::*;
use vstd::string::StrSliceExecFns;
use vstd::string::StringExecFns;
use crate::error::{CmdError, ErrorView, Malformation};
use crate::text::{
    find_char, index_of, parse_payload_type, payload_type_of, squeeze_spaces, squeezed, trim,
    trimmed, upper, upper_of,
};

verus! {

broadcast use vstd::std_specs::hash::group_hash_axioms;

/// One `a=` line of a media section.
#[derive(Debug)]
pub struct MediaAttribute {
    /// The attribute's name.
    pub attribute: String,
    /// What follows the colon, if there is one.
    pub value: Option<String>,
}

/// One media section: its attributes, in the order of the lines.
#[derive(Debug)]
pub struct MediaSection {
    pub attributes: Vec<MediaAttribute>,
}

/// A session description: its media sections, in the order of the lines.
#[derive(Debug)]
pub struct SessionDescription {
    pub medias: Vec<MediaSection>,
}

/// What a [`MediaAttribute`] denotes.
pub ghost struct AttributeView {
    pub attribute: Seq<char>,
    pub value: Option<Seq<char>>,
}

impl View for MediaAttribute {
    type V = AttributeView;

    open spec fn view(&self) -> AttributeView {
        AttributeView {
            attribute: self.attribute@,
            value: match self.value {
                Some(v) => Some(v@),
                None => None,
            },
        }
    }
}

impl View for MediaSection {
    type V = Seq<AttributeView>;

    open spec fn view(&self) -> Seq<AttributeView> {
        self.attributes@.map_values(|a: MediaAttribute| a@)
    }
}

impl View for SessionDescription {
    type V = Seq<Seq<AttributeView>>;

    open spec fn view(&self) -> Seq<Seq<AttributeView>> {
        self.medias@.map_values(|m: MediaSection| m@)
    }
}

/// The media sections that the session-description parser reads from a
/// body; `None` where it rejects the body.
pub uninterp spec fn sdp_parsed(body: Seq<u8>) -> Option<Seq<Seq<AttributeView>>>;

/// What an optional session description denotes.
pub open spec fn session_view(session: Option<SessionDescription>) -> Option<
    Seq<Seq<AttributeView>>,
> {
    match session {
        Some(s) => Some(s@),
        None => None,
    }
}

/// The error for a payload type that is no number from 0 to 255.
pub open spec fn bad_payload_type() -> ErrorView {
    ErrorView::MalformedNegotiation { reason: Malformation::PayloadType }
}

/// What the value of a payload mapping says. The value is trimmed and its
/// runs of white space are squeezed; it is then cut at the first space. A
/// value without a space says nothing. Otherwise the part before the space is
/// the payload type, and the codec's name is what follows the space, up to
/// the first `/`.
pub open spec fn mapping_of(value: Seq<char>) -> Result<Option<(u8, Seq<char>)>, ErrorView> {
    let line = squeezed(trimmed(value));
    let cut = index_of(line, ' ');
    if cut >= line.len() {
        Ok(None)
    } else {
        let descriptor = line.subrange(cut + 1, line.len() as int);
        match payload_type_of(line.subrange(0, cut)) {
            None => Err(bad_payload_type()),
            Some(pt) => Ok(Some((pt, descriptor.subrange(0, index_of(descriptor, '/'))))),
        }
    }
}

/// What an attribute adds to the table: for a payload mapping (`rtpmap`) with
/// a value, its payload type and its codec's name in upper case; nothing for
/// any other attribute.
pub open spec fn entry_of(a: AttributeView) -> Result<Option<(u8, Seq<char>)>, ErrorView> {
    if a.attribute == "rtpmap"@ && a.value is Some {
        match mapping_of(a.value->0) {
            Ok(Some((pt, name))) => Ok(Some((pt, upper_of(name)))),
            Ok(None) => Ok(None),
            Err(e) => Err(e),
        }
    } else {
        Ok(None)
    }
}

/// `acc` after the attributes of one section: each entry overwrites what the
/// table held for its payload type.
pub open spec fn section_codecs(acc: Map<u8, Seq<char>>, attrs: Seq<AttributeView>) -> Map<
    u8,
    Seq<char>,
>
    decreases attrs.len(),
{
    if attrs.len() == 0 {
        acc
    } else {
        let earlier = section_codecs(acc, attrs.drop_last());
        match entry_of(attrs.last()) {
            Ok(Some((pt, codec))) => earlier.insert(pt, codec),
            _ => earlier,
        }
    }
}

/// The table that all sections define together, later entries overwriting
/// earlier ones.
pub open spec fn codecs_of(medias: Seq<Seq<AttributeView>>) -> Map<u8, Seq<char>>
    decreases medias.len(),
{
    if medias.len() == 0 {
        Map::empty()
    } else {
        section_codecs(codecs_of(medias.drop_last()), medias.last())
    }
}

/// Whether some payload mapping in some section has a malformed payload type.
pub open spec fn has_malformed(medias: Seq<Seq<AttributeView>>) -> bool {
    exists|i: int, j: int|
        0 <= i < medias.len() && 0 <= j < medias[i].len() && entry_of(
            #[trigger] medias[i][j],
        ) is Err
}

/// The outcome of reading the payload mappings of a session description: a
/// failure where one of them is malformed, the table otherwise.
pub open spec fn media_map_of(medias: Seq<Seq<AttributeView>>) -> Result<
    Map<u8, Seq<char>>,
    ErrorView,
> {
    if has_malformed(medias) {
        Err(bad_payload_type())
    } else {
        Ok(codecs_of(medias))
    }
}

/// A table of strings, read as a table of character sequences.
pub open spec fn codec_view(m: Map<u8, String>) -> Map<u8, Seq<char>> {
    Map::new(|k: u8| m.contains_key(k), |k: u8| m[k]@)
}

/// What the outcome of [`rtpmap_fields`] denotes.
pub open spec fn fields_view(r: Result<Option<(u8, String)>, CmdError>) -> Result<
    Option<(u8, Seq<char>)>,
    ErrorView,
> {
    match r {
        Ok(Some((pt, name))) => Ok(Some((pt, name@))),
        Ok(None) => Ok(None),
        Err(e) => Err(e@),
    }
}

/// What the outcome of [`media_map`] denotes.
pub open spec fn table_view(r: Result<HashMap<u8, String>, CmdError>) -> Result<
    Map<u8, Seq<char>>,
    ErrorView,
> {
    match r {
        Ok(m) => Ok(codec_view(m@)),
        Err(e) => Err(e@),
    }
}

/// Parses a body with `sdp_types::Session::parse` and keeps the attributes of
/// its media sections. Trusted: the outcome depends on the body alone.
#[verifier::external_body]
pub(crate) fn parse_session(body: &[u8]) -> (session: Option<SessionDescription>)
    ensures
        session_view(session) == sdp_parsed(body@),
{
    let parsed = sdp_types::Session::parse(body).ok()?;
    Some(SessionDescription {
        medias: parsed.medias.into_iter().map(|m| MediaSection {
            attributes: m.attributes.into_iter().map(|a| MediaAttribute {
                attribute: a.attribute,
                value: a.value,
            }).collect(),
        }).collect(),
    })
}

/// Reads the value of one payload mapping: the payload type and the codec's
/// name as written. `Ok(None)` for a value that has no space after trimming.
pub fn rtpmap_fields(value: &str) -> (r: Result<Option<(u8, String)>, CmdError>)
    ensures
        fields_view(r) == mapping_of(value@),
{
    let line: String = squeeze_spaces(trim(value));
    let text: &str = line.as_str();
    let n: usize = text.unicode_len();
    let cut: usize = find_char(text, ' ');
    if cut >= n {
        return Ok(None);
    }
    let key: &str = text.substring_char(0, cut);
    let descriptor: &str = text.substring_char(cut + 1, n);
    match parse_payload_type(key) {
        None => Err(CmdError::MalformedNegotiation { reason: Malformation::PayloadType }),
        Some(pt) => {
            let slash: usize = find_char(descriptor, '/');
            let name: &str = descriptor.substring_char(0, slash);
            Ok(Some((pt, name.to_owned())))
        },
    }
}

/// Builds the table from payload type to codec name out of the payload
/// mappings of all media sections. A later mapping overwrites an earlier one
/// for the same payload type; other attributes are ignored; one malformed
/// payload type fails the whole.
pub fn media_map(session: &SessionDescription) -> (r: Result<HashMap<u8, String>, CmdError>)
    ensures
        table_view(r) == media_map_of(session@),
{
    let rtpmap: String = String::from_str("rtpmap");
    let mut table: HashMap<u8, String> = HashMap::new();
    let ghost medias = session@;
    assert(codec_view(table@) =~= Map::empty());
    let mut i: usize = 0;
    while i < session.medias.len()
        invariant
            i <= session.medias.len(),
            medias == session@,
            rtpmap@ == "rtpmap"@,
            codec_view(table@) == codecs_of(medias.subrange(0, i as int)),
            forall|a: int, b: int|
                0 <= a < i && 0 <= b < medias[a].len() ==> !(entry_of(
                    #[trigger] medias[a][b],
                ) is Err),
        decreases session.medias.len() - i,
    {
        let section = &session.medias[i];
        let ghost attrs = section@;
        let ghost base = codecs_of(medias.subrange(0, i as int));
        let mut j: usize = 0;
        while j < section.attributes.len()
            invariant
                j <= section.attributes.len(),
                i < session.medias.len(),
                medias == session@,
                attrs == section@,
                attrs == medias[i as int],
                rtpmap@ == "rtpmap"@,
                codec_view(table@) == section_codecs(base, attrs.subrange(0, j as int)),
                forall|b: int| 0 <= b < j ==> !(entry_of(#[trigger] attrs[b]) is Err),
            decreases section.attributes.len() - j,
        {
            let attr = &section.attributes[j];
            let ghost before = codec_view(table@);
            assert(attr@ == attrs[j as int]);
            if attr.attribute == rtpmap {
                match &attr.value {
                    Some(v) => match rtpmap_fields(v.as_str()) {
                        Err(e) => {
                            assert(entry_of(medias[i as int][j as int]) is Err);
                            return Err(e);
                        },
                        Ok(Some((pt, name))) => {
                            let codec: String = upper(name.as_str());
                            table.insert(pt, codec);
                            assert(codec_view(table@) =~= before.insert(pt, codec@));
                        },
                        Ok(None) => {},
                    },
                    None => {},
                }
            }
            proof {
                let longer = attrs.subrange(0, j + 1);
                assert(longer.drop_last() =~= attrs.subrange(0, j as int));
                assert(longer.last() == attrs[j as int]);
            }
            j += 1;
        }
        proof {
            assert(attrs.subrange(0, j as int) =~= attrs);
            let longer = medias.subrange(0, i + 1);
            assert(longer.drop_last() =~= medias.subrange(0, i as int));
            assert(longer.last() == attrs);
        }
        i += 1;
    }
    assert(medias.subrange(0, i as int) =~= medias);
    Ok(table)
}

} // verus!
