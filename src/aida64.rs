use quick_xml::events::Event;
use vstd::prelude::*;

verus! {

/// One value of the AIDA64 sensor export.
#[derive(Clone, Debug)]
pub struct Aida64Sensor {
    pub id: String,
    pub value: String,
    pub label: String,
    /// The group the value came in: `sys`, `temp`, `fan` or `pwr`.
    pub sensor_type: String,
}

/// One event of the XML reader, as plain values: names and text as raw bytes.
#[derive(Clone, Debug)]
pub enum XmlEvent {
    Start(Vec<u8>),
    End(Vec<u8>),
    /// Text as written, entities not yet resolved.
    Text(Vec<u8>),
    /// The text could not be read further; nothing follows.
    Malformed,
    Other,
}

/// The events quick-xml reads from a text, with whitespace around text trimmed, up to the end
/// of the text or the first error (reported as `Malformed`, the last event).
pub uninterp spec fn xml_events_of(xml: Seq<char>) -> Seq<XmlEvent>;

/// Text with its entities resolved by quick-xml; `None` for bytes that are not UTF-8 or hold
/// an unknown entity.
pub uninterp spec fn unescaped_of(raw: Seq<u8>) -> Option<Seq<char>>;

/// Relies on quick_xml::Reader::read_event (on a reader of `Reader::from_str` with
/// `trim_text(true)`): every event until the end or the first error, names and text copied out.
#[verifier::external_body]
fn read_xml_events(xml: &str) -> (r: Vec<XmlEvent>)
    ensures
        r@ == xml_events_of(xml@),
{
    let mut reader = quick_xml::Reader::from_str(xml);
    reader.trim_text(true);
    let mut events = Vec::new();
    loop {
        events.push(match reader.read_event() {
            Ok(Event::Start(e)) => XmlEvent::Start(e.name().0.to_vec()),
            Ok(Event::End(e)) => XmlEvent::End(e.name().0.to_vec()),
            Ok(Event::Text(e)) => XmlEvent::Text(e.into_inner().into_owned()),
            Ok(Event::Eof) => return events,
            Ok(_) => XmlEvent::Other,
            Err(_) => break,
        });
    }
    events.push(XmlEvent::Malformed);
    events
}

/// Relies on quick_xml::escape::unescape, on the text read as UTF-8: entities resolved.
#[verifier::external_body]
fn unescape_text(raw: &Vec<u8>) -> (r: Option<String>)
    ensures
        match r {
            Some(t) => unescaped_of(raw@) == Some(t@),
            None => unescaped_of(raw@) is None,
        },
{
    let text = std::str::from_utf8(raw).ok()?;
    quick_xml::escape::unescape(text).ok().map(|t| t.into_owned())
}

/// What an AIDA64 value is, as plain values.
pub struct Aida64View {
    pub id: Seq<char>,
    pub value: Seq<char>,
    pub label: Seq<char>,
    pub sensor_type: Seq<char>,
}

impl View for Aida64Sensor {
    type V = Aida64View;

    open spec fn view(&self) -> Aida64View {
        Aida64View {
            id: self.id@,
            value: self.value@,
            label: self.label@,
            sensor_type: self.sensor_type@,
        }
    }
}

pub open spec fn name_id() -> Seq<u8> {
    seq![105u8, 100u8]
}

pub open spec fn name_label() -> Seq<u8> {
    seq![108u8, 97u8, 98u8, 101u8, 108u8]
}

pub open spec fn name_value() -> Seq<u8> {
    seq![118u8, 97u8, 108u8, 117u8, 101u8]
}

/// The element that closes one value, and the group it names.
pub open spec fn group_of(n: Seq<u8>) -> Option<Seq<char>> {
    if n == seq![116u8, 101u8, 109u8, 112u8] {
        Some("temp"@)
    } else if n == seq![115u8, 121u8, 115u8] {
        Some("sys"@)
    } else if n == seq![102u8, 97u8, 110u8] {
        Some("fan"@)
    } else if n == seq![112u8, 119u8, 114u8] {
        Some("pwr"@)
    } else {
        None
    }
}

/// Where the reading of the export stands.
pub struct ParseState {
    pub current: Seq<char>,
    pub id: Seq<char>,
    pub label: Seq<char>,
    pub value: Seq<char>,
    pub out: Seq<Aida64View>,
    pub done: bool,
}

pub open spec fn initial_state() -> ParseState {
    ParseState {
        current: Seq::empty(),
        id: Seq::empty(),
        label: Seq::empty(),
        value: Seq::empty(),
        out: Seq::empty(),
        done: false,
    }
}

/// One event of the export: an opening `id`, `label` or `value` starts a new text, text is
/// collected, a closing `id`, `label` or `value` stores the text, and a closing group
/// (`temp`, `sys`, `fan`, `pwr`) emits the value read so far. An error or text that cannot
/// be read stop the reading.
pub open spec fn step(s: ParseState, e: XmlEvent) -> ParseState {
    if s.done {
        s
    } else {
        match e {
            XmlEvent::Start(n) => if n@ == name_id() || n@ == name_label() || n@ == name_value() {
                ParseState { current: Seq::empty(), ..s }
            } else {
                s
            },
            XmlEvent::Text(raw) => match unescaped_of(raw@) {
                Some(t) => ParseState { current: s.current + t, ..s },
                None => ParseState { done: true, ..s },
            },
            XmlEvent::End(n) => if n@ == name_id() {
                ParseState { id: s.current, ..s }
            } else if n@ == name_label() {
                ParseState { label: s.current, ..s }
            } else if n@ == name_value() {
                ParseState { value: s.current, ..s }
            } else if group_of(n@) is Some {
                ParseState {
                    out: s.out.push(
                        Aida64View {
                            id: s.id,
                            value: s.value,
                            label: s.label,
                            sensor_type: group_of(n@)->0,
                        },
                    ),
                    ..s
                }
            } else {
                s
            },
            XmlEvent::Other => s,
            _ => ParseState { done: true, ..s },
        }
    }
}

pub open spec fn parse_state(events: Seq<XmlEvent>) -> ParseState
    decreases events.len(),
{
    if events.len() == 0 {
        initial_state()
    } else {
        step(parse_state(events.drop_last()), events.last())
    }
}

/// The values an event stream holds.
pub open spec fn sensors_from(events: Seq<XmlEvent>) -> Seq<Aida64View> {
    parse_state(events).out
}

pub open spec fn sensors_view(v: Seq<Aida64Sensor>) -> Seq<Aida64View> {
    v.map_values(|x: Aida64Sensor| x@)
}

fn bytes_eq(a: &Vec<u8>, b: &Vec<u8>) -> (r: bool)
    ensures
        r == (a@ == b@),
{
    if a.len() != b.len() {
        return false;
    }
    let mut i: usize = 0;
    while i < a.len()
        invariant
            a@.len() == b@.len(),
            i <= a@.len(),
            a@.take(i as int) == b@.take(i as int),
        decreases a@.len() - i,
    {
        if a[i] != b[i] {
            return false;
        }
        i = i + 1;
        assert(a@.take(i as int) =~= b@.take(i as int));
    }
    assert(a@ =~= a@.take(a@.len() as int));
    assert(b@ =~= b@.take(b@.len() as int));
    true
}

fn group_name(n: &Vec<u8>) -> (r: Option<String>)
    ensures
        match r {
            Some(g) => group_of(n@) == Some(g@),
            None => group_of(n@) is None,
        },
{
    if bytes_eq(n, &vec![116u8, 101u8, 109u8, 112u8]) {
        Some(String::from_str("temp"))
    } else if bytes_eq(n, &vec![115u8, 121u8, 115u8]) {
        Some(String::from_str("sys"))
    } else if bytes_eq(n, &vec![102u8, 97u8, 110u8]) {
        Some(String::from_str("fan"))
    } else if bytes_eq(n, &vec![112u8, 119u8, 114u8]) {
        Some(String::from_str("pwr"))
    } else {
        None
    }
}

/// Reads the values of an event stream of the AIDA64 export.
pub fn parse_events(events: &Vec<XmlEvent>) -> (r: Vec<Aida64Sensor>)
    ensures
        sensors_view(r@) == sensors_from(events@),
{
    let id_name = vec![105u8, 100u8];
    let label_name = vec![108u8, 97u8, 98u8, 101u8, 108u8];
    let value_name = vec![118u8, 97u8, 108u8, 117u8, 101u8];
    let mut current = String::new();
    let mut id = String::new();
    let mut label = String::new();
    let mut value = String::new();
    let mut out: Vec<Aida64Sensor> = Vec::new();
    let mut done = false;
    let mut i: usize = 0;
    assert(events@.take(0) =~= Seq::<XmlEvent>::empty());
    assert(sensors_view(out@) =~= Seq::<Aida64View>::empty());
    while i < events.len()
        invariant
            i <= events@.len(),
            id_name@ == name_id(),
            label_name@ == name_label(),
            value_name@ == name_value(),
            parse_state(events@.take(i as int)) == (ParseState {
                current: current@,
                id: id@,
                label: label@,
                value: value@,
                out: sensors_view(out@),
                done,
            }),
        decreases events@.len() - i,
    {
        assert(events@.take(i + 1).drop_last() =~= events@.take(i as int));
        assert(events@.take(i + 1).last() == events@[i as int]);
        if !done {
            match &events[i] {
                XmlEvent::Start(n) => {
                    if bytes_eq(n, &id_name) || bytes_eq(n, &label_name) || bytes_eq(
                        n,
                        &value_name,
                    ) {
                        current = String::new();
                    }
                },
                XmlEvent::Text(raw) => match unescape_text(raw) {
                    Some(t) => current.append(t.as_str()),
                    None => done = true,
                },
                XmlEvent::End(n) => {
                    if bytes_eq(n, &id_name) {
                        id = current.clone();
                    } else if bytes_eq(n, &label_name) {
                        label = current.clone();
                    } else if bytes_eq(n, &value_name) {
                        value = current.clone();
                    } else {
                        match group_name(n) {
                            Some(g) => {
                                let ghost before = sensors_view(out@);
                                out.push(
                                    Aida64Sensor {
                                        id: id.clone(),
                                        value: value.clone(),
                                        label: label.clone(),
                                        sensor_type: g,
                                    },
                                );
                                assert(sensors_view(out@) =~= before.push(out@.last()@));
                            },
                            None => {},
                        }
                    }
                },
                XmlEvent::Other => {},
                _ => {
                    done = true;
                },
            }
        }
        i = i + 1;
    }
    assert(events@.take(events@.len() as int) =~= events@);
    out
}

/// Reads the values of an AIDA64 XML export: those of the events quick-xml reads from it.
pub fn parse_xml(xml_string: &str) -> (r: Vec<Aida64Sensor>)
    ensures
        sensors_view(r@) == sensors_from(xml_events_of(xml_string@)),
{
    let events = read_xml_events(xml_string);
    parse_events(&events)
}

/// Reads the values of the AIDA64 shared-memory export, whose text lists the value groups
/// without a root element: those of the text wrapped in `<root>`.
pub fn read_sensors(shared_memory_text: &str) -> (r: Vec<Aida64Sensor>)
    ensures
        sensors_view(r@) == sensors_from(
            xml_events_of("<root>"@ + shared_memory_text@ + "</root>"@),
        ),
{
    let mut xml = String::from_str("<root>");
    xml.append(shared_memory_text);
    xml.append("</root>");
    parse_xml(xml.as_str())
}

} // verus!
