//! Identifiers and names in the XML files of unpacked 1C configurations.

use crate::text;
use crate::text::{copy, same};
use crate::xml;
use crate::xml::{
    attributes_of, local_name, open_document, read_event, read_inner_text, unescape_value,
    XmlAttribute, XmlAttributeView, XmlEvent, XmlEventView,
};
use vstd::prelude::*;

verus! {

/// The value of the first attribute `uuid`, read on from `attributes`.
pub open spec fn uuid_among(attributes: Seq<XmlAttributeView>) -> Result<Option<Seq<char>>, Seq<char>>
    decreases attributes.len(),
{
    if attributes.len() == 0 {
        Ok(None)
    } else {
        match attributes[0] {
            XmlAttributeView::Invalid(message) => Err(message),
            XmlAttributeView::Pair(name, value) => if xml::local(name) == "uuid"@ {
                match xml::xml_unescaped_value(value) {
                    Some(value) => Ok(Some(value)),
                    None => Err("cannot decode metadata UUID"@),
                }
            } else {
                uuid_among(attributes.skip(1))
            },
        }
    }
}

/// The `uuid` attribute of a tag.
pub open spec fn tag_uuid(name: Seq<char>, tag: Seq<char>) -> Result<Option<Seq<char>>, Seq<char>> {
    uuid_among(xml::xml_attributes(tag, name))
}

/// Finds the first attribute `uuid`.
pub fn find_uuid(attributes: &Vec<XmlAttribute>) -> (r: Result<Option<String>, String>)
    ensures
        text::outcome(r) == uuid_among(attributes.deep_view()),
{
    let ghost all = attributes.deep_view();
    assert(all.skip(0) =~= all);
    let mut i: usize = 0;
    while i < attributes.len()
        invariant
            i <= attributes@.len(),
            all == attributes.deep_view(),
            uuid_among(all) == uuid_among(all.skip(i as int)),
        decreases attributes@.len() - i,
    {
        assert(all.skip(i as int)[0] == attributes@[i as int].deep_view());
        assert(all.skip(i as int).skip(1) =~= all.skip(i + 1));
        match &attributes[i] {
            XmlAttribute::Invalid(message) => {
                return Err(copy(message.as_str()));
            },
            XmlAttribute::Pair(name, value) => {
                let local = local_name(name.as_str());
                if same(local.as_str(), "uuid") {
                    return match unescape_value(value.as_str()) {
                        Some(value) => Ok(Some(value)),
                        None => Err(copy("cannot decode metadata UUID")),
                    };
                }
            },
        }
        i = i + 1;
    }
    assert(all.skip(i as int).len() == 0);
    Ok(None)
}

/// Reads the `uuid` attribute of a tag.
pub fn uuid_attribute(name: &str, tag: &str) -> (r: Result<Option<String>, String>)
    requires
        name@.is_prefix_of(tag@),
    ensures
        text::outcome(r) == tag_uuid(name@, tag@),
{
    let attributes = attributes_of(tag, name);
    find_uuid(&attributes)
}

/// The identifier of the first object inside `MetaDataObject`, in what remains of a document.
pub open spec fn object_uuid_in(events: Seq<XmlEventView>, inside: bool, path: Seq<char>) -> Result<Seq<char>, Seq<char>>
    decreases events.len(),
{
    if events.len() == 0 || events[0] is Eof {
        Err("metadata XML "@ + path + " has no object UUID"@)
    } else {
        match events[0] {
            XmlEventView::Invalid(message) => Err(message),
            XmlEventView::Start(name, tag) => if xml::local(name) == "MetaDataObject"@ {
                object_uuid_in(events.drop_first(), true, path)
            } else if inside {
                match tag_uuid(name, tag) {
                    Err(message) => Err(message),
                    Ok(Some(uuid)) => Ok(uuid),
                    Ok(None) => object_uuid_in(events.drop_first(), inside, path),
                }
            } else {
                object_uuid_in(events.drop_first(), inside, path)
            },
            XmlEventView::Empty(name, tag) if inside => match tag_uuid(name, tag) {
                Err(message) => Err(message),
                Ok(Some(uuid)) => Ok(uuid),
                Ok(None) => object_uuid_in(events.drop_first(), inside, path),
            },
            _ => object_uuid_in(events.drop_first(), inside, path),
        }
    }
}

/// The identifier of the object that a metadata file describes.
pub open spec fn object_uuid(document: Seq<char>, path: Seq<char>) -> Result<Seq<char>, Seq<char>> {
    object_uuid_in(xml::xml_events(document, false), false, path)
}

fn no_object_uuid(path: &str) -> (r: String)
    ensures
        r@ == "metadata XML "@ + path@ + " has no object UUID"@,
{
    let mut message = copy("metadata XML ");
    message.append(path);
    message.append(" has no object UUID");
    message
}

/// Reads the identifier of the object that a metadata file describes.
pub fn metadata_uuid(document: &str, path: &str) -> (r: Result<String, String>)
    ensures
        text::outcome(r) == object_uuid(document@, path@),
{
    let mut reader = open_document(document, false);
    let ghost all = xml::xml_unread(reader);
    let ghost mut n: int = 0;
    let mut inside = false;
    assert(all.skip(0) =~= all);
    loop
        invariant
            xml::is_stream(all),
            0 <= n < all.len(),
            xml::xml_unread(reader) == all.skip(n),
            object_uuid(document@, path@) == object_uuid_in(all.skip(n), inside, path@),
        decreases all.len() - n,
    {
        let event = read_event(&mut reader);
        assert(event.deep_view() == all[n]);
        assert(xml::tag_begins_with_name(all[n]));
        assert(all.skip(n).drop_first() =~= all.skip(n + 1));
        assert(!xml::is_last(all[n]) ==> n + 1 < all.len());
        match event {
            XmlEvent::Start(name, tag) => {
                let local = local_name(name.as_str());
                if same(local.as_str(), "MetaDataObject") {
                    inside = true;
                } else if inside {
                    match uuid_attribute(name.as_str(), tag.as_str()) {
                        Err(message) => {
                            return Err(message);
                        },
                        Ok(Some(uuid)) => {
                            return Ok(uuid);
                        },
                        Ok(None) => {},
                    }
                }
            },
            XmlEvent::Empty(name, tag) => {
                if inside {
                    match uuid_attribute(name.as_str(), tag.as_str()) {
                        Err(message) => {
                            return Err(message);
                        },
                        Ok(Some(uuid)) => {
                            return Ok(uuid);
                        },
                        Ok(None) => {},
                    }
                }
            },
            XmlEvent::Eof => {
                return Err(no_object_uuid(path));
            },
            XmlEvent::Invalid(message) => {
                return Err(message);
            },
            _ => {},
        }
        proof {
            n = n + 1;
        }
    }
}

/// The identifier of the first element with one, in what remains of an EDT document.
pub open spec fn edt_uuid_in(events: Seq<XmlEventView>, path: Seq<char>) -> Result<Seq<char>, Seq<char>>
    decreases events.len(),
{
    if events.len() == 0 || events[0] is Eof {
        Err("EDT metadata file "@ + path + " has no object UUID"@)
    } else {
        match events[0] {
            XmlEventView::Invalid(message) => Err(message),
            XmlEventView::Start(name, tag) => match tag_uuid(name, tag) {
                Err(message) => Err(message),
                Ok(Some(uuid)) => Ok(uuid),
                Ok(None) => edt_uuid_in(events.drop_first(), path),
            },
            XmlEventView::Empty(name, tag) => match tag_uuid(name, tag) {
                Err(message) => Err(message),
                Ok(Some(uuid)) => Ok(uuid),
                Ok(None) => edt_uuid_in(events.drop_first(), path),
            },
            _ => edt_uuid_in(events.drop_first(), path),
        }
    }
}

/// The identifier of the object that an EDT metadata file describes.
pub open spec fn edt_object_uuid(document: Seq<char>, path: Seq<char>) -> Result<Seq<char>, Seq<char>> {
    edt_uuid_in(xml::xml_events(document, false), path)
}

/// Reads the identifier of the object that an EDT metadata file describes.
pub fn edt_uuid(document: &str, path: &str) -> (r: Result<String, String>)
    ensures
        text::outcome(r) == edt_object_uuid(document@, path@),
{
    let mut reader = open_document(document, false);
    let ghost all = xml::xml_unread(reader);
    let ghost mut n: int = 0;
    assert(all.skip(0) =~= all);
    loop
        invariant
            xml::is_stream(all),
            0 <= n < all.len(),
            xml::xml_unread(reader) == all.skip(n),
            edt_object_uuid(document@, path@) == edt_uuid_in(all.skip(n), path@),
        decreases all.len() - n,
    {
        let event = read_event(&mut reader);
        assert(event.deep_view() == all[n]);
        assert(xml::tag_begins_with_name(all[n]));
        assert(all.skip(n).drop_first() =~= all.skip(n + 1));
        assert(!xml::is_last(all[n]) ==> n + 1 < all.len());
        match event {
            XmlEvent::Start(name, tag) | XmlEvent::Empty(name, tag) => {
                match uuid_attribute(name.as_str(), tag.as_str()) {
                    Err(message) => {
                        return Err(message);
                    },
                    Ok(Some(uuid)) => {
                        return Ok(uuid);
                    },
                    Ok(None) => {},
                }
            },
            XmlEvent::Eof => {
                let mut message = copy("EDT metadata file ");
                message.append(path);
                message.append(" has no object UUID");
                return Err(message);
            },
            XmlEvent::Invalid(message) => {
                return Err(message);
            },
            _ => {},
        }
        proof {
            n = n + 1;
        }
    }
}

/// The raw content of the first element `Name` behind an opening tag `Properties`, where `events`
/// are still unread.
pub open spec fn name_in(document: Seq<char>, events: Seq<XmlEventView>, inside: bool) -> Result<Seq<char>, Seq<char>>
    decreases events.len(),
{
    if events.len() == 0 || events[0] is Eof {
        Err("extension configuration has no name"@)
    } else {
        match events[0] {
            XmlEventView::Invalid(message) => Err(message),
            XmlEventView::Start(name, _) => if xml::local(name) == "Properties"@ {
                name_in(document, events.drop_first(), true)
            } else if inside && xml::local(name) == "Name"@ {
                match xml::xml_inner_text(document, false, (events.len() - 1) as nat, name) {
                    Ok(content) => Ok(content),
                    Err(_) => Err("cannot read extension configuration name"@),
                }
            } else {
                name_in(document, events.drop_first(), inside)
            },
            _ => name_in(document, events.drop_first(), inside),
        }
    }
}

/// The logical name of an unpacked configuration.
pub open spec fn name_of_configuration(document: Seq<char>) -> Result<Seq<char>, Seq<char>> {
    name_in(document, xml::xml_events(document, false), false)
}

/// Reads the logical name of an unpacked configuration.
pub fn configuration_name(document: &str) -> (r: Result<String, String>)
    ensures
        text::outcome(r) == name_of_configuration(document@),
{
    let mut reader = open_document(document, false);
    let ghost all = xml::xml_unread(reader);
    let ghost mut n: int = 0;
    let mut inside = false;
    assert(all.skip(0) =~= all);
    loop
        invariant
            xml::is_stream(all),
            0 <= n < all.len(),
            xml::xml_unread(reader) == all.skip(n),
            xml::xml_source(reader) == (document@, false),
            name_of_configuration(document@) == name_in(document@, all.skip(n), inside),
        decreases all.len() - n,
    {
        let event = read_event(&mut reader);
        assert(event.deep_view() == all[n]);
        assert(all.skip(n).drop_first() =~= all.skip(n + 1));
        assert(!xml::is_last(all[n]) ==> n + 1 < all.len());
        match event {
            XmlEvent::Start(name, _) => {
                let local = local_name(name.as_str());
                if same(local.as_str(), "Properties") {
                    inside = true;
                } else if inside && same(local.as_str(), "Name") {
                    return match read_inner_text(&mut reader, name.as_str()) {
                        Ok(content) => Ok(content),
                        Err(_) => Err(copy("cannot read extension configuration name")),
                    };
                }
            },
            XmlEvent::Eof => {
                return Err(copy("extension configuration has no name"));
            },
            XmlEvent::Invalid(message) => {
                return Err(message);
            },
            _ => {},
        }
        proof {
            n = n + 1;
        }
    }
}

/// The raw content of the first element `name`, where `events` are still unread.
pub open spec fn edt_name_in(document: Seq<char>, events: Seq<XmlEventView>) -> Result<Seq<char>, Seq<char>>
    decreases events.len(),
{
    if events.len() == 0 || events[0] is Eof {
        Err("EDT configuration has no name"@)
    } else {
        match events[0] {
            XmlEventView::Invalid(message) => Err(message),
            XmlEventView::Start(name, _) if xml::local(name) == "name"@ => match xml::xml_inner_text(
                document,
                false,
                (events.len() - 1) as nat,
                name,
            ) {
                Ok(content) => Ok(content),
                Err(_) => Err("cannot read EDT configuration name"@),
            },
            _ => edt_name_in(document, events.drop_first()),
        }
    }
}

/// The logical name of an EDT configuration.
pub open spec fn name_of_edt_configuration(document: Seq<char>) -> Result<Seq<char>, Seq<char>> {
    edt_name_in(document, xml::xml_events(document, false))
}

/// Reads the logical name of an EDT configuration.
pub fn edt_configuration_name(document: &str) -> (r: Result<String, String>)
    ensures
        text::outcome(r) == name_of_edt_configuration(document@),
{
    let mut reader = open_document(document, false);
    let ghost all = xml::xml_unread(reader);
    let ghost mut n: int = 0;
    assert(all.skip(0) =~= all);
    loop
        invariant
            xml::is_stream(all),
            0 <= n < all.len(),
            xml::xml_unread(reader) == all.skip(n),
            xml::xml_source(reader) == (document@, false),
            name_of_edt_configuration(document@) == edt_name_in(document@, all.skip(n)),
        decreases all.len() - n,
    {
        let event = read_event(&mut reader);
        assert(event.deep_view() == all[n]);
        assert(all.skip(n).drop_first() =~= all.skip(n + 1));
        assert(!xml::is_last(all[n]) ==> n + 1 < all.len());
        match event {
            XmlEvent::Start(name, _) => {
                let local = local_name(name.as_str());
                if same(local.as_str(), "name") {
                    return match read_inner_text(&mut reader, name.as_str()) {
                        Ok(content) => Ok(content),
                        Err(_) => Err(copy("cannot read EDT configuration name")),
                    };
                }
            },
            XmlEvent::Eof => {
                return Err(copy("EDT configuration has no name"));
            },
            XmlEvent::Invalid(message) => {
                return Err(message);
            },
            _ => {},
        }
        proof {
            n = n + 1;
        }
    }
}

pub open spec fn no_form(path: Seq<char>, form: Seq<char>) -> Seq<char> {
    "EDT metadata file "@ + path + " has no form named "@ + form
}

/// The identifier of the form with a name, where `events` are still unread. `candidate` is the
/// identifier of the element `forms` that was entered last, if `in_form` says that there is one.
pub open spec fn form_uuid_in(
    document: Seq<char>,
    events: Seq<XmlEventView>,
    candidate: Option<Seq<char>>,
    in_form: bool,
    path: Seq<char>,
    form: Seq<char>,
) -> Result<Seq<char>, Seq<char>>
    decreases events.len(),
{
    if events.len() == 0 || events[0] is Eof {
        Err(no_form(path, form))
    } else {
        let rest = events.drop_first();
        match events[0] {
            XmlEventView::Invalid(message) => Err(message),
            XmlEventView::Start(name, tag) => if xml::local(name) == "forms"@ {
                match tag_uuid(name, tag) {
                    Err(message) => Err(message),
                    Ok(uuid) => form_uuid_in(document, rest, uuid, true, path, form),
                }
            } else if in_form && xml::local(name) == "name"@ {
                match xml::xml_inner_text(document, false, rest.len(), name) {
                    Err(message) => Err(message),
                    Ok(content) => if content == form {
                        match candidate {
                            Some(uuid) => Ok(uuid),
                            None => Err("EDT form has no UUID"@),
                        }
                    } else {
                        let next = xml::after_end(rest, name, 0);
                        if next.len() < events.len() {
                            form_uuid_in(document, next, candidate, in_form, path, form)
                        } else {
                            Err(no_form(path, form))
                        }
                    },
                }
            } else {
                form_uuid_in(document, rest, candidate, in_form, path, form)
            },
            XmlEventView::End(name) => if xml::local(name) == "forms"@ {
                form_uuid_in(document, rest, None, false, path, form)
            } else {
                form_uuid_in(document, rest, candidate, in_form, path, form)
            },
            _ => form_uuid_in(document, rest, candidate, in_form, path, form),
        }
    }
}

/// The identifier of the form with a name that an EDT metadata file describes.
pub open spec fn form_uuid(document: Seq<char>, path: Seq<char>, form: Seq<char>) -> Result<Seq<char>, Seq<char>> {
    form_uuid_in(document, xml::xml_events(document, false), None, false, path, form)
}

proof fn lemma_after_end(events: Seq<XmlEventView>, name: Seq<char>, depth: nat) -> (k: int)
    ensures
        0 <= k <= events.len(),
        xml::after_end(events, name, depth) == events.skip(k),
    decreases events.len(),
{
    if events.len() == 0 {
        assert(events.skip(0) =~= events);
        0
    } else {
        let rest = events.drop_first();
        let k = match events[0] {
            XmlEventView::Start(other, _) if other == name => lemma_after_end(rest, name, depth + 1),
            XmlEventView::End(other) if other == name => if depth == 0 {
                assert(rest.skip(0) =~= rest);
                0
            } else {
                lemma_after_end(rest, name, (depth - 1) as nat)
            },
            _ => lemma_after_end(rest, name, depth),
        };
        assert(rest.skip(k) =~= events.skip(k + 1));
        k + 1
    }
}

/// Reads the identifier of the form with a name.
pub fn edt_form_uuid(document: &str, path: &str, form: &str) -> (r: Result<String, String>)
    ensures
        text::outcome(r) == form_uuid(document@, path@, form@),
{
    let mut reader = open_document(document, false);
    let ghost all = xml::xml_unread(reader);
    let ghost mut n: int = 0;
    let mut candidate: Option<String> = None;
    let mut in_form = false;
    assert(all.skip(0) =~= all);
    loop
        invariant
            xml::is_stream(all),
            0 <= n < all.len(),
            xml::xml_unread(reader) == all.skip(n),
            xml::xml_source(reader) == (document@, false),
            form_uuid(document@, path@, form@) == form_uuid_in(
                document@,
                all.skip(n),
                candidate.deep_view(),
                in_form,
                path@,
                form@,
            ),
        decreases all.len() - n,
    {
        let event = read_event(&mut reader);
        assert(event.deep_view() == all[n]);
        assert(xml::tag_begins_with_name(all[n]));
        assert(all.skip(n).drop_first() =~= all.skip(n + 1));
        assert(!xml::is_last(all[n]) ==> n + 1 < all.len());
        let ghost mut next: int = n + 1;
        match event {
            XmlEvent::Start(name, tag) => {
                let local = local_name(name.as_str());
                if same(local.as_str(), "forms") {
                    match uuid_attribute(name.as_str(), tag.as_str()) {
                        Err(message) => {
                            return Err(message);
                        },
                        Ok(uuid) => {
                            candidate = uuid;
                            in_form = true;
                        },
                    }
                } else if in_form && same(local.as_str(), "name") {
                    match read_inner_text(&mut reader, name.as_str()) {
                        Err(message) => {
                            return Err(message);
                        },
                        Ok(content) => {
                            if same(content.as_str(), form) {
                                return match candidate {
                                    Some(uuid) => Ok(uuid),
                                    None => Err(copy("EDT form has no UUID")),
                                };
                            }
                            proof {
                                let k = lemma_after_end(all.skip(n + 1), name@, 0);
                                assert(all.skip(n + 1).skip(k) =~= all.skip(n + 1 + k));
                                next = n + 1 + k;
                            }
                        },
                    }
                }
            },
            XmlEvent::End(name) => {
                let local = local_name(name.as_str());
                if same(local.as_str(), "forms") {
                    candidate = None;
                    in_form = false;
                }
            },
            XmlEvent::Eof => {
                let mut message = copy("EDT metadata file ");
                message.append(path);
                message.append(" has no form named ");
                message.append(form);
                return Err(message);
            },
            XmlEvent::Invalid(message) => {
                return Err(message);
            },
            _ => {},
        }
        proof {
            n = next;
        }
    }
}

} // verus!
