//! The bearer, and the headers that carry it.
//!
//! A header helper is a command that prints a JSON object of header name to
//! header value. It runs once per exporter, at init, at a swap and at a probe.
//! Nothing here ever renders a header value, the helper's output, or anything
//! derived from either.

use vstd::prelude::*;
use vstd::string::*;
use vstd::utf8::decode_utf8;
use vstd::utf8::encode_utf8;
use vstd::utf8::valid_utf8;

use crate::headers::distinct_names;
use crate::headers::entry_texts;
use crate::headers::Headers;
use crate::text::a_number_reads_back;
use crate::text::decimal;
use crate::text::decimal_reads_back;
use crate::text::decimal_text;
use crate::text::digit;
use crate::text::number;
use crate::text::only_the_space_around_is_trimmed;
use crate::text::parse_number;
use crate::text::trim;
use crate::text::trimmed;
use crate::text::white_space;

verus! {

// ---------------------------------------------------------------------------
// The helper's output
// ---------------------------------------------------------------------------

/// The members of the JSON object that `text` is, each with its value where that
/// is a string; nothing where `text` is not a JSON object.
pub uninterp spec fn json_object(text: Seq<char>) -> Option<Seq<(Seq<char>, Option<Seq<char>>)>>;

/// The texts of a JSON object's members.
pub open spec fn member_texts(members: Seq<(String, Option<String>)>) -> Seq<
    (Seq<char>, Option<Seq<char>>),
> {
    members.map_values(
        |member: (String, Option<String>)|
            (
                member.0@,
                match member.1 {
                    Some(value) => Some(value@),
                    None => None,
                },
            ),
    )
}

/// The texts of a JSON object's members, where there is an object.
pub open spec fn object_texts(object: Option<Vec<(String, Option<String>)>>) -> Option<
    Seq<(Seq<char>, Option<Seq<char>>)>,
> {
    match object {
        Some(members) => Some(member_texts(members@)),
        None => None,
    }
}

/// `serde_json::from_str` into a `serde_json::Value`, read through
/// `Value::as_object` and, member by member, `Value::as_str`. The result is named
/// after what it is, [`json_object`]; that a JSON object binds no name twice is
/// the one thing claimed of it, because `serde_json::Map` is a map.
#[verifier::external_body]
fn parse_json_object(text: &str) -> (object: Option<Vec<(String, Option<String>)>>)
    ensures
        object_texts(object) == json_object(text@),
        object matches Some(members) ==> distinct_names(member_texts(members@)),
{
    let value = serde_json::from_str::<serde_json::Value>(text).ok()?;
    let object = value.as_object()?;
    Some(object.iter().map(|(name, value)| (name.clone(), value.as_str().map(str::to_owned))).collect())
}

/// The headers that a JSON object's members are: all of them, where every value is
/// a string, and nothing otherwise.
pub open spec fn headers_of(object: Option<Seq<(Seq<char>, Option<Seq<char>>)>>) -> Option<
    Seq<(Seq<char>, Seq<char>)>,
> {
    match object {
        Some(members) if forall|i: int| 0 <= i < members.len() ==> (#[trigger] members[i]).1 is Some =>
            Some(
                members.map_values(
                    |member: (Seq<char>, Option<Seq<char>>)| (member.0, member.1->0),
                ),
            ),
        _ => None,
    }
}

/// The bindings of headers, where there are headers.
pub open spec fn headers_texts(headers: Option<Headers>) -> Option<Seq<(Seq<char>, Seq<char>)>> {
    match headers {
        Some(headers) => Some(headers.entries()),
        None => None,
    }
}

/// The headers that a parsed object gives.
pub fn headers_from(object: Option<Vec<(String, Option<String>)>>) -> (headers: Option<Headers>)
    requires
        object matches Some(members) ==> distinct_names(member_texts(members@)),
    ensures
        headers_texts(headers) == headers_of(object_texts(object)),
{
    let members: Vec<(String, Option<String>)> = match object {
        Some(members) => members,
        None => return None,
    };
    let ghost texts = member_texts(members@);
    let mut entries: Vec<(String, String)> = Vec::new();
    for i in 0..members.len()
        invariant
            object_texts(object) == Some(texts),
            texts == member_texts(members@),
            entries.len() == i,
            forall|j: int| 0 <= j < i ==> (#[trigger] texts[j]).1 is Some,
            forall|j: int|
                0 <= j < i ==> (#[trigger] entry_texts(entries@)[j]) == (texts[j].0, texts[j].1->0),
    {
        match &members[i].1 {
            Some(value) => {
                let ghost before = entries@;
                entries.push((members[i].0.clone(), value.clone()));
                assert forall|j: int| 0 <= j <= i implies (#[trigger] entry_texts(entries@)[j]) == (
                    texts[j].0,
                    texts[j].1->0,
                ) by {
                    if j < i {
                        assert(entry_texts(before)[j] == entry_texts(entries@)[j]);
                    }
                }
            },
            None => {
                assert(texts[i as int].1 is None);
                return None;
            },
        }
    }
    let ghost wanted = texts.map_values(
        |member: (Seq<char>, Option<Seq<char>>)| (member.0, member.1->0),
    );
    assert(entry_texts(entries@) =~= wanted);
    assert(distinct_names(entry_texts(entries@))) by {
        assert forall|i: int, j: int| 0 <= i < j < wanted.len() implies (#[trigger] wanted[i]).0 != (
        #[trigger] wanted[j]).0 by {
            assert(texts[i].0 != texts[j].0);
        }
    }
    Some(Headers::of(entries))
}

/// Parse a helper's output. A JSON object of strings is headers; anything else (a
/// bare string, empty output, invalid JSON, a value that is no string) is nothing.
pub fn parse_headers(stdout: &str) -> (headers: Option<Headers>)
    ensures
        headers_texts(headers) == headers_of(json_object(stdout@)),
{
    headers_from(parse_json_object(stdout))
}

/// `String::from_utf8`: the text that the bytes encode, where they are UTF-8.
#[verifier::external_body]
fn utf8_text(bytes: Vec<u8>) -> (text: Option<String>)
    ensures
        match text {
            Some(text) => valid_utf8(bytes@) && text@ == decode_utf8(bytes@),
            None => !valid_utf8(bytes@),
        },
{
    String::from_utf8(bytes).ok()
}

// ---------------------------------------------------------------------------
// Running the helper
// ---------------------------------------------------------------------------

/// How long the header helper may take, wherever it is run.
pub const HELPER_BUDGET_MILLIS: u64 = 10_000;

/// How long to sleep between two looks at a helper that is still running.
pub const HELPER_POLL_MILLIS: u64 = 20;

/// What became of the helper, as its runner sees it.
pub enum HelperEvent {
    /// `sh -c` could not be started.
    NotStarted,
    /// `sh -c` was started.
    Started,
    /// It is still running, this long after it was started.
    Running { elapsed_millis: u64 },
    /// It exited.
    Exited { success: bool },
    /// It could not be waited on.
    WaitFailed,
    /// It exited with success, and something still holds its output open, this long
    /// after it was started.
    Reading { elapsed_millis: u64 },
    /// It exited with success, and its output could not be read.
    Unreadable,
    /// It exited with success, and this is all it printed.
    Output(Vec<u8>),
}

/// What the helper's runner does next.
pub enum HelperStep {
    /// Look whether the helper has exited.
    Poll,
    /// Sleep, then look again at what was looked at last.
    Sleep { millis: u64 },
    /// Kill the helper and fail.
    Kill { why: &'static str },
    /// Start to read the whole output, and look whether all of it is there.
    Read,
    /// Be done.
    Done(Result<Headers, &'static str>),
}

/// What a helper's whole output is worth.
pub open spec fn answer_of(output: Seq<u8>) -> Result<Seq<(Seq<char>, Seq<char>)>, Seq<char>> {
    if !valid_utf8(output) {
        Err("the header helper printed non-UTF-8"@)
    } else {
        match headers_of(json_object(decode_utf8(output))) {
            Some(entries) => Ok(entries),
            None => Err("the header helper did not print a JSON object of headers"@),
        }
    }
}

/// The texts of a helper's answer.
pub open spec fn answer_texts(answer: Result<Headers, &'static str>) -> Result<
    Seq<(Seq<char>, Seq<char>)>,
    Seq<char>,
> {
    match answer {
        Ok(headers) => Ok(headers.entries()),
        Err(why) => Err(why@),
    }
}

/// A step that fails for `why` and asks for nothing more.
pub open spec fn fails(step: HelperStep, why: Seq<char>) -> bool {
    step matches HelperStep::Done(answer) && answer_texts(answer) == Err::<
        Seq<(Seq<char>, Seq<char>)>,
        Seq<char>,
    >(why)
}

/// A look that found the helper, or its output, not done: more time is given below
/// the budget, and none at it or beyond.
pub open spec fn given_time(step: HelperStep, elapsed_millis: u64, timeout_millis: u64) -> bool {
    if elapsed_millis < timeout_millis {
        step == (HelperStep::Sleep { millis: HELPER_POLL_MILLIS })
    } else {
        step matches HelperStep::Kill { why } && why@ == "the header helper timed out"@
    }
}

/// The step that follows `event` when the helper may take `timeout_millis`.
pub open spec fn helper_step(event: HelperEvent, timeout_millis: u64, step: HelperStep) -> bool {
    match event {
        HelperEvent::NotStarted => fails(step, "the header helper could not be started"@),
        HelperEvent::Started => step is Poll,
        HelperEvent::Running { elapsed_millis } => given_time(
            step,
            elapsed_millis,
            timeout_millis,
        ),
        HelperEvent::Exited { success } => if success {
            step is Read
        } else {
            fails(step, "the header helper exited non-zero"@)
        },
        HelperEvent::WaitFailed => fails(step, "the header helper could not be waited on"@),
        HelperEvent::Reading { elapsed_millis } => given_time(
            step,
            elapsed_millis,
            timeout_millis,
        ),
        HelperEvent::Unreadable => fails(step, "the header helper produced no readable output"@),
        HelperEvent::Output(output) => step matches HelperStep::Done(answer) && answer_texts(answer)
            == answer_of(output@),
    }
}

/// What to do about `event` when the helper may take `timeout_millis`, from its start
/// until all of its output is read. The error is a fixed phrase that names the
/// condition, never the helper's output, which carries the credential.
pub fn run_helper(event: HelperEvent, timeout_millis: u64) -> (step: HelperStep)
    ensures
        helper_step(event, timeout_millis, step),
{
    match event {
        HelperEvent::NotStarted => HelperStep::Done(Err("the header helper could not be started")),
        HelperEvent::Started => HelperStep::Poll,
        HelperEvent::Running { elapsed_millis } | HelperEvent::Reading { elapsed_millis } => {
            if elapsed_millis < timeout_millis {
                HelperStep::Sleep { millis: HELPER_POLL_MILLIS }
            } else {
                HelperStep::Kill { why: "the header helper timed out" }
            }
        },
        HelperEvent::Exited { success } => if success {
            HelperStep::Read
        } else {
            HelperStep::Done(Err("the header helper exited non-zero"))
        },
        HelperEvent::WaitFailed => HelperStep::Done(
            Err("the header helper could not be waited on"),
        ),
        HelperEvent::Unreadable => HelperStep::Done(
            Err("the header helper produced no readable output"),
        ),
        HelperEvent::Output(output) => match utf8_text(output) {
            None => HelperStep::Done(Err("the header helper printed non-UTF-8")),
            Some(stdout) => match parse_headers(stdout.as_str()) {
                Some(headers) => HelperStep::Done(Ok(headers)),
                None => HelperStep::Done(
                    Err("the header helper did not print a JSON object of headers"),
                ),
            },
        },
    }
}

/// A helper's output fails for one of two fixed phrases, whatever it holds: nothing
/// of the output is in the error.
pub proof fn an_error_holds_nothing_of_the_output(output: Seq<u8>)
    ensures
        answer_of(output) matches Err(why) ==> why == "the header helper printed non-UTF-8"@ || why
            == "the header helper did not print a JSON object of headers"@,
{
}

/// How long after the helper's start a look found it, or its output, not done.
pub open spec fn not_done_after(event: HelperEvent) -> Option<u64> {
    match event {
        HelperEvent::Running { elapsed_millis } => Some(elapsed_millis),
        HelperEvent::Reading { elapsed_millis } => Some(elapsed_millis),
        _ => None,
    }
}

/// A run is bounded: the first look at the budget or beyond that finds the helper
/// still running, or its output still open, ends it, and a run is put off only by a
/// look before that.
pub proof fn a_look_beyond_the_budget_ends_the_run(
    event: HelperEvent,
    timeout_millis: u64,
    step: HelperStep,
)
    requires
        helper_step(event, timeout_millis, step),
    ensures
        not_done_after(event) matches Some(elapsed) && elapsed >= timeout_millis ==> step is Kill,
        step is Sleep ==> (not_done_after(event) matches Some(elapsed) && elapsed < timeout_millis),
        step is Poll ==> event is Started,
        step is Read ==> event is Exited,
{
}

/// A helper that is looked at again and again, running or read, each time at least a
/// poll interval later, is given more time at most so often before it is killed.
pub proof fn a_helper_is_waited_for_only_so_often(
    looks: Seq<HelperEvent>,
    steps: Seq<HelperStep>,
    timeout_millis: u64,
)
    requires
        looks.len() == steps.len(),
        forall|i: int|
            0 <= i < looks.len() ==> helper_step(#[trigger] looks[i], timeout_millis, steps[i])
                && steps[i] is Sleep,
        forall|i: int, j: int|
            0 <= i < j < looks.len() ==> not_done_after(#[trigger] looks[j])->0 - not_done_after(
                #[trigger] looks[i],
            )->0 >= (j - i) * HELPER_POLL_MILLIS,
    ensures
        looks.len() * HELPER_POLL_MILLIS < timeout_millis + HELPER_POLL_MILLIS,
{
    if looks.len() > 0 {
        let last = looks.len() - 1;
        a_look_beyond_the_budget_ends_the_run(looks[last], timeout_millis, steps[last]);
        a_look_beyond_the_budget_ends_the_run(looks[0], timeout_millis, steps[0]);
        if last > 0 {
            assert(not_done_after(looks[last])->0 - not_done_after(looks[0])->0 >= (last - 0)
                * HELPER_POLL_MILLIS);
        }
    }
}

// ---------------------------------------------------------------------------
// The headers a request carries
// ---------------------------------------------------------------------------

/// A header field as it goes out.
pub struct Header {
    pub name: String,
    pub value: Vec<u8>,
    /// Whether the value is kept out of whatever renders the request.
    pub sensitive: bool,
}

/// A header field, as mathematics.
pub struct HeaderField {
    pub name: Seq<char>,
    pub value: Seq<u8>,
    pub sensitive: bool,
}

impl View for Header {
    type V = HeaderField;

    open spec fn view(&self) -> HeaderField {
        HeaderField { name: self.name@, value: self.value@, sensitive: self.sensitive }
    }
}

/// A character that may stand in a header name.
pub open spec fn token_char(c: char) -> bool {
    ||| '0' <= c <= '9'
    ||| 'A' <= c <= 'Z'
    ||| 'a' <= c <= 'z'
    ||| c == '!' || c == '#' || c == '$' || c == '%' || c == '&' || c == '\''
    ||| c == '*' || c == '+' || c == '-' || c == '.' || c == '^' || c == '_'
    ||| c == '`' || c == '|' || c == '~'
}

/// A header name: tokens only, at least one and at most 65535 of them.
pub open spec fn valid_name(name: Seq<char>) -> bool {
    &&& 1 <= name.len() <= 65535
    &&& forall|i: int| 0 <= i < name.len() ==> token_char(#[trigger] name[i])
}

/// A name as it is sent and compared: `A` to `Z` in lower case.
pub open spec fn lower_case(name: Seq<char>) -> Seq<char> {
    name.map_values(
        |c: char|
            if 'A' <= c <= 'Z' {
                (c as u32 + 32) as char
            } else {
                c
            },
    )
}

/// A header value: no control character but the tab.
pub open spec fn valid_value(value: Seq<u8>) -> bool {
    forall|i: int|
        0 <= i < value.len() ==> ((#[trigger] value[i]) >= 32 && value[i] != 127 || value[i] == 9)
}

/// `http::HeaderName::try_from` on a `&str`: the name in lower case, where `text`
/// is a header name.
#[verifier::external_body]
fn header_name(text: &str) -> (name: Option<String>)
    ensures
        match name {
            Some(name) => valid_name(text@) && name@ == lower_case(text@),
            None => !valid_name(text@),
        },
{
    http::HeaderName::try_from(text).ok().map(|name| name.as_str().to_owned())
}

/// `http::HeaderValue::try_from` on a `&str`: the UTF-8 bytes of `text`, where they
/// are a header value.
#[verifier::external_body]
fn header_value(text: &str) -> (value: Option<Vec<u8>>)
    ensures
        match value {
            Some(value) => valid_value(encode_utf8(text@)) && value@ == encode_utf8(text@),
            None => !valid_value(encode_utf8(text@)),
        },
{
    http::HeaderValue::try_from(text).ok().map(|value| value.as_bytes().to_vec())
}

/// An `http::HeaderMap`, whose contents [`header_fields`] names.
#[verifier::external_type_specification]
#[verifier::external_body]
#[verifier::reject_recursive_types(T)]
pub struct ExHeaderMap<T>(http::HeaderMap<T>);

/// An `http::HeaderValue`, held only inside an `http::HeaderMap`.
#[verifier::external_type_specification]
#[verifier::external_body]
pub struct ExHeaderValue(http::HeaderValue);

/// The fields of a header map: for each name, in lower case, its values in order,
/// each with whether it is sensitive.
pub uninterp spec fn header_fields(map: http::HeaderMap<http::HeaderValue>) -> Map<
    Seq<char>,
    Seq<(Seq<u8>, bool)>,
>;

/// How many names a header map may hold and still take one more, whatever its
/// names hash to.
pub open spec fn header_room() -> nat {
    6553
}

/// `http::HeaderMap::try_insert`, of a field made with `http::HeaderName::try_from`,
/// `http::HeaderValue::from_bytes` and `HeaderValue::set_sensitive`. The field
/// replaces all values of its name and leaves the other names as they are. It is
/// refused, and the map left as it is, only where the name or the value is no
/// header name or value, or where the map is too full: a map is never too full
/// below the fifth of its largest table, which [`header_room`] is.
#[verifier::external_body]
fn insert_field(map: &mut http::HeaderMap<http::HeaderValue>, header: &Header) -> (done: bool)
    ensures
        header_fields(*old(map)).dom().finite(),
        header_fields(*final(map)) == (if done {
            header_fields(*old(map)).insert(
                lower_case(header.name@),
                seq![(header.value@, header.sensitive)],
            )
        } else {
            header_fields(*old(map))
        }),
        done ==> valid_name(header.name@) && valid_value(header.value@),
        valid_name(header.name@) && valid_value(header.value@) && header_fields(
            *old(map),
        ).dom().len() <= header_room() ==> done,
{
    let name = http::HeaderName::try_from(header.name.as_str());
    let value = http::HeaderValue::from_bytes(&header.value);
    match (name, value) {
        (Ok(name), Ok(mut value)) => {
            value.set_sensitive(header.sensitive);
            map.try_insert(name, value).is_ok()
        },
        _ => false,
    }
}

/// What `fields` becomes once `header` has replaced whatever stood under its name.
pub open spec fn with_field(
    fields: Map<Seq<char>, Seq<(Seq<u8>, bool)>>,
    header: HeaderField,
) -> Map<Seq<char>, Seq<(Seq<u8>, bool)>> {
    fields.insert(lower_case(header.name), seq![(header.value, header.sensitive)])
}

/// What `fields` becomes once `headers` have been put in, first to last.
pub open spec fn with_fields(
    fields: Map<Seq<char>, Seq<(Seq<u8>, bool)>>,
    headers: Seq<HeaderField>,
) -> Map<Seq<char>, Seq<(Seq<u8>, bool)>>
    decreases headers.len(),
{
    if headers.len() == 0 {
        fields
    } else {
        with_field(with_fields(fields, headers.drop_last()), headers.last())
    }
}

/// The field that a binding of the helper becomes, where it can be one.
pub open spec fn field_of(binding: (Seq<char>, Seq<char>)) -> Option<HeaderField> {
    if valid_name(binding.0) && valid_value(encode_utf8(binding.1)) {
        Some(
            HeaderField {
                name: lower_case(binding.0),
                value: encode_utf8(binding.1),
                sensitive: true,
            },
        )
    } else {
        None
    }
}

/// The fields that the helper's bindings become, in order, without those that
/// cannot be header fields.
pub open spec fn fields_of(entries: Seq<(Seq<char>, Seq<char>)>) -> Seq<HeaderField>
    decreases entries.len(),
{
    if entries.len() == 0 {
        Seq::empty()
    } else {
        let front = fields_of(entries.drop_last());
        match field_of(entries.last()) {
            Some(field) => front.push(field),
            None => front,
        }
    }
}

/// What an exporter's HTTP client puts on every request: the helper's headers, put
/// on last, so that they win over any static header the SDK applies.
pub struct HeaderClient {
    timeout_millis: u64,
    headers: Vec<Header>,
}

impl HeaderClient {
    /// The fields the client puts on a request, in order.
    pub closed spec fn fields(&self) -> Seq<HeaderField> {
        field_views(self.headers@)
    }

    /// How long the client waits for an answer.
    pub closed spec fn timeout(&self) -> u64 {
        self.timeout_millis
    }

    /// Every field is a sensitive header field.
    #[verifier::type_invariant]
    pub closed spec fn wf(&self) -> bool {
        forall|i: int|
            0 <= i < self.fields().len() ==> valid_field(#[trigger] self.fields()[i])
    }

    /// A client that waits `timeout_millis` and carries `headers`. A header whose
    /// name or value is not one HTTP can carry is left out.
    pub fn new(timeout_millis: u64, headers: &Headers) -> (client: Self)
        ensures
            client.timeout() == timeout_millis,
            client.fields() == fields_of(headers.entries()),
    {
        let mut fields: Vec<Header> = Vec::new();
        let count: usize = headers.len();
        let ghost entries = headers.entries();
        assert(field_views(fields@) =~= fields_of(entries.take(0)));
        for i in 0..count
            invariant
                count == entries.len(),
                entries == headers.entries(),
                field_views(fields@) == fields_of(entries.take(i as int)),
                forall|j: int| 0 <= j < fields.len() ==> valid_field((#[trigger] fields@[j])@),
        {
            let (name, value) = headers.entry(i);
            let ghost before = fields@;
            assert(entries.take(i + 1).drop_last() =~= entries.take(i as int));
            match (header_name(name), header_value(value)) {
                (Some(name), Some(value)) => {
                    proof {
                        lower_case_is_valid(entries[i as int].0);
                    }
                    fields.push(Header { name, value, sensitive: true });
                    assert(field_views(fields@) =~= field_views(before).push(fields@.last()@));
                },
                _ => {},
            }
        }
        assert(entries.take(count as int) =~= entries);
        HeaderClient { timeout_millis, headers: fields }
    }

    /// How long to wait for an answer.
    pub fn timeout_millis(&self) -> (millis: u64)
        ensures
            millis == self.timeout(),
    {
        self.timeout_millis
    }

    /// Put the client's headers on a request, last, each in place of whatever stood
    /// under its name. False where the request has no room for all of them: those up
    /// to the first that finds it full are then on it.
    pub fn stamp(&self, map: &mut http::HeaderMap<http::HeaderValue>) -> (complete: bool)
        ensures
            complete ==> header_fields(*final(map)) == with_fields(
                header_fields(*old(map)),
                self.fields(),
            ),
            !complete ==> exists|n: int|
                0 <= n < self.fields().len() && header_fields(*final(map)) == #[trigger] with_fields(
                    header_fields(*old(map)),
                    self.fields().take(n),
                ),
            !complete ==> header_fields(*final(map)).dom().len() > header_room(),
            header_fields(*old(map)).dom().len() + self.fields().len() <= header_room() + 1
                ==> complete,
    {
        let ghost base = header_fields(*map);
        let ghost fields = self.fields();
        assert(fields.take(0) =~= Seq::<HeaderField>::empty());
        for i in 0..self.headers.len()
            invariant
                fields == self.fields(),
                base == header_fields(*old(map)),
                header_fields(*map) == with_fields(base, fields.take(i as int)),
                header_fields(*map).dom().len() <= base.dom().len() + i,
        {
            proof {
                use_type_invariant(self);
                assert(valid_field(self.fields()[i as int]));
            }
            assert(fields.take(i + 1).drop_last() =~= fields.take(i as int));
            assert(fields[i as int] == self.headers@[i as int]@);
            let done: bool = insert_field(map, &self.headers[i]);
            if !done {
                return false;
            }
        }
        assert(fields.take(fields.len() as int) =~= fields);
        true
    }

    /// The headers of one POST of an OTLP protobuf body, in the order in which they
    /// are added: its content type, then the same headers an export is stamped with.
    pub fn post_headers(&self) -> (headers: Vec<Header>)
        ensures
            field_views(headers@) == seq![content_type()] + self.fields(),
    {
        proof {
            reveal_strlit("application/x-protobuf");
        }
        let mut headers: Vec<Header> = Vec::new();
        headers.push(
            Header {
                name: "content-type".to_owned(),
                value: "application/x-protobuf".as_bytes_vec(),
                sensitive: false,
            },
        );
        let ghost fields = self.fields();
        assert(field_views(headers@) =~= seq![content_type()] + fields.take(0));
        for i in 0..self.headers.len()
            invariant
                fields == self.fields(),
                field_views(headers@) == seq![content_type()] + fields.take(i as int),
        {
            let ghost before = field_views(headers@);
            let header: &Header = &self.headers[i];
            headers.push(
                Header {
                    name: header.name.clone(),
                    value: header.value.clone(),
                    sensitive: header.sensitive,
                },
            );
            assert(headers@.last()@ == fields[i as int]);
            assert(field_views(headers@) =~= before.push(fields[i as int]));
            assert(fields.take(i + 1) =~= fields.take(i as int).push(fields[i as int]));
            assert(field_views(headers@) =~= seq![content_type()] + fields.take(i + 1));
        }
        assert(fields.take(fields.len() as int) =~= fields);
        headers
    }

    /// What stands for the client wherever it is rendered: how many headers it
    /// carries, and nothing of any of them.
    pub fn debug_text(&self) -> (text: String)
        ensures
            text@ == "HeaderClient { headers: "@ + decimal(self.fields().len()) + " }"@,
    {
        let count: u64 = self.headers.len() as u64;
        let mut text: String = "HeaderClient { headers: ".to_owned();
        let digits: String = decimal_text(count);
        text.append(digits.as_str());
        text.append(" }");
        text
    }
}

/// Header fields, as mathematics.
pub open spec fn field_views(headers: Seq<Header>) -> Seq<HeaderField> {
    headers.map_values(|header: Header| header@)
}

/// The content type of an OTLP protobuf body.
pub open spec fn content_type() -> HeaderField {
    HeaderField {
        name: "content-type"@,
        value: encode_utf8("application/x-protobuf"@),
        sensitive: false,
    }
}

/// A sensitive field whose name, in lower case, and value HTTP can carry.
pub open spec fn valid_field(field: HeaderField) -> bool {
    &&& valid_name(field.name)
    &&& lower_case(field.name) == field.name
    &&& valid_value(field.value)
    &&& field.sensitive
}

/// Lower case keeps a header name one, and is kept by lower case.
proof fn lower_case_is_valid(name: Seq<char>)
    requires
        valid_name(name),
    ensures
        valid_name(lower_case(name)),
        lower_case(lower_case(name)) == lower_case(name),
{
    let lower = lower_case(name);
    assert forall|i: int| 0 <= i < lower.len() implies token_char(#[trigger] lower[i]) by {
        assert(token_char(name[i]));
    }
    assert(lower_case(lower) =~= lower) by {
        assert forall|i: int| 0 <= i < lower.len() implies lower_case(lower)[i] == #[trigger] lower[i] by {
            assert(token_char(name[i]));
        }
    }
}

/// Exactly what HTTP can carry of the helper's headers is sent, and all of it is
/// sensitive: a field is sent if and only if some binding becomes it.
pub proof fn what_http_can_carry_is_sent(entries: Seq<(Seq<char>, Seq<char>)>, field: HeaderField)
    ensures
        fields_of(entries).contains(field) <==> exists|i: int|
            0 <= i < entries.len() && field_of(#[trigger] entries[i]) == Some(field),
        fields_of(entries).contains(field) ==> valid_field(field),
        fields_of(entries).len() <= entries.len(),
    decreases entries.len(),
{
    if entries.len() > 0 {
        let front = entries.drop_last();
        let last = entries.last();
        what_http_can_carry_is_sent(front, field);
        assert(last == entries[entries.len() - 1]);
        if field_of(last) is Some {
            lower_case_is_valid(last.0);
            let sent = fields_of(front);
            let all = fields_of(entries);
            assert(all == sent.push(field_of(last)->0));
            if sent.contains(field) {
                let k = choose|k: int| 0 <= k < sent.len() && sent[k] == field;
                assert(all[k] == field);
            }
            if field_of(last) == Some(field) {
                assert(all[all.len() - 1] == field);
            }
            if all.contains(field) {
                let k = choose|k: int| 0 <= k < all.len() && all[k] == field;
                if k < sent.len() {
                    assert(sent[k] == field);
                }
            }
        }
        if exists|i: int| 0 <= i < front.len() && field_of(#[trigger] front[i]) == Some(field) {
            let i = choose|i: int|
                0 <= i < front.len() && field_of(#[trigger] front[i]) == Some(field);
            assert(field_of(entries[i]) == Some(field));
        }
        if exists|i: int| 0 <= i < entries.len() && field_of(#[trigger] entries[i]) == Some(field) {
            let i = choose|i: int|
                0 <= i < entries.len() && field_of(#[trigger] entries[i]) == Some(field);
            if i < front.len() {
                assert(field_of(front[i]) == Some(field));
            }
        }
    }
}

/// The helper's headers win: a field of the helper that no later one of the same
/// name follows stands alone under its name once a request is stamped, whatever
/// stood there before.
pub proof fn the_helper_wins(
    fields: Map<Seq<char>, Seq<(Seq<u8>, bool)>>,
    headers: Seq<HeaderField>,
    i: int,
)
    requires
        0 <= i < headers.len(),
        forall|j: int|
            i < j < headers.len() ==> lower_case((#[trigger] headers[j]).name) != lower_case(
                headers[i].name,
            ),
    ensures
        with_fields(fields, headers).contains_key(lower_case(headers[i].name)),
        with_fields(fields, headers)[lower_case(headers[i].name)] == seq![
            (headers[i].value, headers[i].sensitive),
        ],
    decreases headers.len(),
{
    let front = headers.drop_last();
    if i < headers.len() - 1 {
        assert(headers[headers.len() - 1] == headers.last());
        assert forall|j: int| i < j < front.len() implies lower_case((#[trigger] front[j]).name)
            != lower_case(front[i].name) by {
            assert(front[j] == headers[j]);
        }
        the_helper_wins(fields, front, i);
    }
}

/// Stamping touches no header that the helper does not name.
pub proof fn stamping_leaves_other_headers(
    fields: Map<Seq<char>, Seq<(Seq<u8>, bool)>>,
    headers: Seq<HeaderField>,
    name: Seq<char>,
)
    requires
        forall|i: int| 0 <= i < headers.len() ==> lower_case((#[trigger] headers[i]).name) != name,
    ensures
        with_fields(fields, headers).contains_key(name) <==> fields.contains_key(name),
        fields.contains_key(name) ==> with_fields(fields, headers)[name] == fields[name],
    decreases headers.len(),
{
    if headers.len() > 0 {
        let front = headers.drop_last();
        assert(headers[headers.len() - 1] == headers.last());
        assert forall|i: int| 0 <= i < front.len() implies lower_case((#[trigger] front[i]).name)
            != name by {
            assert(front[i] == headers[i]);
        }
        stamping_leaves_other_headers(fields, front, name);
    }
}

/// Stamping a request twice is stamping it once: what an export carries does not
/// depend on whether it was stamped before.
pub proof fn stamping_again_changes_nothing(
    fields: Map<Seq<char>, Seq<(Seq<u8>, bool)>>,
    headers: Seq<HeaderField>,
)
    ensures
        with_fields(with_fields(fields, headers), headers) == with_fields(fields, headers),
{
    let once = with_fields(fields, headers);
    let twice = with_fields(once, headers);
    assert forall|name: Seq<char>|
        #![trigger once.dom().contains(name)]
        #![trigger twice.dom().contains(name)]
        #![trigger once[name]]
        #![trigger twice[name]]
        once.dom().contains(name) == twice.dom().contains(name) && (once.dom().contains(name)
            ==> once[name] == twice[name]) by {
        if exists|i: int|
            0 <= i < headers.len() && lower_case((#[trigger] headers[i]).name) == name {
            let i = last_of_name(headers, name);
            the_helper_wins(fields, headers, i);
            the_helper_wins(once, headers, i);
        } else {
            stamping_leaves_other_headers(once, headers, name);
        }
    }
    assert(twice =~= once);
}

/// The position of the last field of a name that occurs.
proof fn last_of_name(headers: Seq<HeaderField>, name: Seq<char>) -> (i: int)
    requires
        exists|i: int| 0 <= i < headers.len() && lower_case((#[trigger] headers[i]).name) == name,
    ensures
        0 <= i < headers.len(),
        lower_case(headers[i].name) == name,
        forall|j: int| i < j < headers.len() ==> lower_case((#[trigger] headers[j]).name) != name,
    decreases headers.len(),
{
    let front = headers.drop_last();
    if lower_case(headers.last().name) == name {
        headers.len() - 1
    } else {
        let k = choose|k: int|
            0 <= k < headers.len() && lower_case((#[trigger] headers[k]).name) == name;
        assert(front[k] == headers[k]);
        let i = last_of_name(front, name);
        assert forall|j: int| i < j < headers.len() implies lower_case((#[trigger] headers[j]).name)
            != name by {
            if j < front.len() {
                assert(front[j] == headers[j]);
            }
        }
        i
    }
}

// ---------------------------------------------------------------------------
// The transport timeout
// ---------------------------------------------------------------------------

/// The OTLP default for a transport timeout.
pub const DEFAULT_TIMEOUT_MILLIS: u64 = 10_000;

/// What a timeout variable asks for, where it is set to a number.
pub open spec fn asked_millis(variable: Option<Seq<char>>) -> Option<u64> {
    match variable {
        Some(text) => number(trimmed(text)),
        None => None,
    }
}

/// The transport timeout that two variables give: the signal's own where it asks
/// for one, then the general one, then the default.
pub open spec fn transport_timeout(signal: Option<Seq<char>>, general: Option<Seq<char>>) -> u64 {
    match asked_millis(signal) {
        Some(millis) => millis,
        None => match asked_millis(general) {
            Some(millis) => millis,
            None => DEFAULT_TIMEOUT_MILLIS,
        },
    }
}

/// The text of a variable, where it is set.
pub open spec fn variable_text(variable: Option<String>) -> Option<Seq<char>> {
    match variable {
        Some(text) => Some(text@),
        None => None,
    }
}

/// What one variable asks for.
fn read_millis(variable: &Option<String>) -> (millis: Option<u64>)
    ensures
        millis == asked_millis(variable_text(*variable)),
{
    match variable {
        Some(text) => parse_number(trim(text.as_str())),
        None => None,
    }
}

/// The transport timeout in milliseconds, from the values of the signal's own
/// variable and of the general one.
pub fn timeout(signal: &Option<String>, general: &Option<String>) -> (millis: u64)
    ensures
        millis == transport_timeout(variable_text(*signal), variable_text(*general)),
        match *signal {
            Some(text) => number(trimmed(text@)) matches Some(asked) ==> millis == asked,
            None => true,
        },
{
    match read_millis(signal) {
        Some(millis) => millis,
        None => match read_millis(general) {
            Some(millis) => millis,
            None => DEFAULT_TIMEOUT_MILLIS,
        },
    }
}

/// A value that is no number counts as unset.
pub proof fn a_timeout_that_is_no_number_counts_as_unset(signal: Seq<char>, general: Option<Seq<char>>)
    requires
        number(trimmed(signal)) is None,
    ensures
        transport_timeout(Some(signal), general) == transport_timeout(None, general),
{
}

/// The signal's own variable comes first: where it holds a number, the timeout is that
/// number, longer or shorter, whatever the general variable holds.
pub proof fn the_signals_own_timeout_wins(signal: Seq<char>, general: Option<Seq<char>>, n: u64)
    requires
        number(trimmed(signal)) == Some(n),
    ensures
        transport_timeout(Some(signal), general) == n,
{
}

/// The general variable comes second: where the signal's own is unset or holds no
/// number, the timeout is the general one's number.
pub proof fn the_general_timeout_comes_second(
    signal: Option<Seq<char>>,
    general: Seq<char>,
    n: u64,
)
    requires
        signal matches Some(text) ==> number(trimmed(text)) is None,
        number(trimmed(general)) == Some(n),
    ensures
        transport_timeout(signal, Some(general)) == n,
{
}

/// Where neither variable holds a number, the timeout is ten seconds.
pub proof fn the_timeout_is_otherwise_ten_seconds(
    signal: Option<Seq<char>>,
    general: Option<Seq<char>>,
)
    requires
        signal matches Some(text) ==> number(trimmed(text)) is None,
        general matches Some(text) ==> number(trimmed(text)) is None,
    ensures
        transport_timeout(signal, general) == 10_000,
{
}

/// Every timeout that can be written is given as it was written: the digits of a number,
/// with or without white space around them, give that number and no other, from the
/// signal's own variable whatever the general one holds, and from the general one where
/// the signal's own is unset.
pub proof fn a_timeout_is_given_as_it_was_written(
    before: Seq<char>,
    n: u64,
    after: Seq<char>,
    general: Option<Seq<char>>,
)
    requires
        forall|i: int| 0 <= i < before.len() ==> white_space(#[trigger] before[i]),
        forall|i: int| 0 <= i < after.len() ==> white_space(#[trigger] after[i]),
    ensures
        transport_timeout(Some(before + decimal(n as nat) + after), general) == n,
        transport_timeout(None, Some(before + decimal(n as nat) + after)) == n,
{
    let digits = decimal(n as nat);
    decimal_reads_back(n as nat);
    assert(digit(digits[0]) && digit(digits[digits.len() - 1]));
    only_the_space_around_is_trimmed(before, digits, after);
    a_number_reads_back(n as nat, 0, false);
    assert(Seq::<char>::empty() + Seq::new(0, |i: int| '0') + digits =~= digits);
}

// ---------------------------------------------------------------------------
// What holds of the helper
// ---------------------------------------------------------------------------

/// A JSON object is headers exactly where every value is a string, and then every
/// member is a header, in order, its name and its value as they are.
pub proof fn an_object_of_strings_is_its_members(members: Seq<(Seq<char>, Option<Seq<char>>)>)
    ensures
        headers_of(None) is None,
        headers_of(Some(members)) is Some <==> forall|i: int|
            0 <= i < members.len() ==> (#[trigger] members[i]).1 is Some,
        headers_of(Some(members)) matches Some(entries) ==> entries.len() == members.len() && (
        forall|i: int|
            0 <= i < members.len() ==> (#[trigger] members[i]) == (entries[i].0, Some(entries[i].1))),
{
}

/// What a helper prints is its answer: the output that writes a JSON object of strings
/// is answered by exactly the object's members.
pub proof fn a_printed_object_is_the_answer(text: Seq<char>, entries: Seq<(Seq<char>, Seq<char>)>)
    requires
        json_object(text) == Some(
            Seq::new(entries.len(), |i: int| (entries[i].0, Some(entries[i].1))),
        ),
    ensures
        answer_of(encode_utf8(text)) == Ok::<Seq<(Seq<char>, Seq<char>)>, Seq<char>>(entries),
{
    let members = Seq::new(entries.len(), |i: int| (entries[i].0, Some(entries[i].1)));
    vstd::utf8::encode_utf8_valid_utf8(text);
    vstd::utf8::encode_utf8_decode_utf8(text);
    an_object_of_strings_is_its_members(members);
    let read = headers_of(Some(members))->0;
    assert forall|i: int| 0 <= i < entries.len() implies #[trigger] read[i] == entries[i] by {
        assert(members[i] == (read[i].0, Some(read[i].1)));
    }
    assert(read =~= entries);
}

/// Before the budget is spent a look never ends the run: a helper that is still running,
/// or whose output is still open, is given twenty milliseconds more. Once it is spent
/// the helper is killed.
pub proof fn a_helper_has_its_whole_budget(
    event: HelperEvent,
    elapsed: u64,
    timeout_millis: u64,
    step: HelperStep,
)
    requires
        event == (HelperEvent::Running { elapsed_millis: elapsed }) || event == (
        HelperEvent::Reading { elapsed_millis: elapsed }),
        helper_step(event, timeout_millis, step),
    ensures
        elapsed < timeout_millis ==> step == (HelperStep::Sleep { millis: 20 }),
        elapsed >= timeout_millis ==> (step matches HelperStep::Kill { why } && why@
            == "the header helper timed out"@),
{
}

/// Only a look at a helper that is not done depends on the budget: whatever else became
/// of the helper, the step is the same for every budget, so what was printed in time is
/// never thrown away.
pub proof fn only_a_look_depends_on_the_budget(
    event: HelperEvent,
    one: u64,
    another: u64,
    step: HelperStep,
)
    requires
        !(event is Running) && !(event is Reading),
    ensures
        helper_step(event, one, step) <==> helper_step(event, another, step),
        helper_step(event, one, step) ==> !(step is Kill) && !(step is Sleep),
{
}

/// A helper that was started is looked at, one that exits with success is read, and what
/// it printed is the answer: all of it where it is a JSON object of strings, and
/// otherwise a phrase that says which of the two it was not.
pub proof fn a_helper_is_heard(event: HelperEvent, timeout_millis: u64, step: HelperStep)
    requires
        helper_step(event, timeout_millis, step),
    ensures
        event is Started ==> step is Poll,
        event == (HelperEvent::Exited { success: true }) ==> step is Read,
        event matches HelperEvent::Output(output) ==> (step matches HelperStep::Done(answer)
            && match answer {
            Ok(headers) => valid_utf8(output@) && (json_object(decode_utf8(output@)) matches Some(
                members,
            ) && members.len() == headers.entries().len() && (forall|i: int|
                0 <= i < members.len() ==> (#[trigger] members[i]) == (
                    headers.entries()[i].0,
                    Some(headers.entries()[i].1),
                ))),
            Err(why) => if valid_utf8(output@) {
                &&& why@ == "the header helper did not print a JSON object of headers"@
                &&& json_object(decode_utf8(output@)) matches Some(members) ==> exists|i: int|
                    0 <= i < members.len() && (#[trigger] members[i]).1 is None
            } else {
                why@ == "the header helper printed non-UTF-8"@
            },
        }),
{
    if let HelperEvent::Output(output) = event {
        if valid_utf8(output@) {
            if let Some(members) = json_object(decode_utf8(output@)) {
                an_object_of_strings_is_its_members(members);
            }
        }
    }
}

/// A helper that fails is answered by the phrase that names its condition.
pub proof fn a_failure_names_its_condition(
    event: HelperEvent,
    timeout_millis: u64,
    step: HelperStep,
)
    requires
        helper_step(event, timeout_millis, step),
    ensures
        event is NotStarted ==> (step matches HelperStep::Done(Err(why)) && why@
            == "the header helper could not be started"@),
        event == (HelperEvent::Exited { success: false }) ==> (step matches HelperStep::Done(
            Err(why),
        ) && why@ == "the header helper exited non-zero"@),
        event is WaitFailed ==> (step matches HelperStep::Done(Err(why)) && why@
            == "the header helper could not be waited on"@),
        event is Unreadable ==> (step matches HelperStep::Done(Err(why)) && why@
            == "the header helper produced no readable output"@),
{
}

// ---------------------------------------------------------------------------
// What holds of the headers
// ---------------------------------------------------------------------------

/// A name is sent as it was printed, but for the letters `A` to `Z`, each of which is
/// sent as its own small letter.
pub proof fn only_capitals_are_changed(name: Seq<char>, i: int)
    requires
        0 <= i < name.len(),
    ensures
        lower_case(name).len() == name.len(),
        !('A' <= name[i] <= 'Z') ==> lower_case(name)[i] == name[i],
        'A' <= name[i] <= 'Z' ==> lower_case(name)[i] as nat - 'a' as nat == name[i] as nat
            - 'A' as nat,
{
}

/// Headers are sent one by one, in order: what one list sends, and then what the next
/// does, is what both together send.
pub proof fn headers_are_sent_one_by_one(
    first: Seq<(Seq<char>, Seq<char>)>,
    second: Seq<(Seq<char>, Seq<char>)>,
)
    ensures
        fields_of(first + second) == fields_of(first) + fields_of(second),
    decreases second.len(),
{
    if second.len() == 0 {
        assert(first + second =~= first);
        assert(fields_of(first) + fields_of(second) =~= fields_of(first));
    } else {
        let front = second.drop_last();
        headers_are_sent_one_by_one(first, front);
        assert((first + second).drop_last() =~= first + front);
        assert((first + second).last() == second.last());
        assert(fields_of(first + second) =~= fields_of(first) + fields_of(second));
    }
}

/// One header is sent exactly as it was printed, its value byte for byte in UTF-8 and
/// sensitive, where HTTP can carry both its name and its value; otherwise nothing is.
pub proof fn one_header_is_sent_as_printed(name: Seq<char>, value: Seq<char>)
    ensures
        fields_of(seq![(name, value)]) == (if valid_name(name) && valid_value(encode_utf8(value)) {
            seq![
                HeaderField {
                    name: lower_case(name),
                    value: encode_utf8(value),
                    sensitive: true,
                },
            ]
        } else {
            Seq::<HeaderField>::empty()
        }),
{
    let entries = seq![(name, value)];
    assert(entries.drop_last() =~= Seq::<(Seq<char>, Seq<char>)>::empty());
    assert(fields_of(entries.drop_last()) =~= Seq::<HeaderField>::empty());
    assert(entries.last() == (name, value));
    if valid_name(name) && valid_value(encode_utf8(value)) {
        assert(fields_of(entries) =~= seq![
            HeaderField { name: lower_case(name), value: encode_utf8(value), sensitive: true },
        ]);
    }
}

/// A header among others is sent as if it were alone: what stands in front of it and
/// behind it only adds fields in front and behind.
proof fn fields_around(entries: Seq<(Seq<char>, Seq<char>)>, i: int)
    requires
        0 <= i < entries.len(),
    ensures
        fields_of(entries) == fields_of(entries.take(i)) + fields_of(seq![entries[i]]) + fields_of(
            entries.skip(i + 1),
        ),
{
    let head = entries.take(i) + seq![entries[i]];
    assert(entries =~= head + entries.skip(i + 1));
    headers_are_sent_one_by_one(head, entries.skip(i + 1));
    headers_are_sent_one_by_one(entries.take(i), seq![entries[i]]);
}

/// Every header that HTTP can carry is sent, with exactly the bytes that the helper
/// printed, whatever headers stand beside it.
pub proof fn every_header_is_sent_as_printed(entries: Seq<(Seq<char>, Seq<char>)>, i: int)
    requires
        0 <= i < entries.len(),
        valid_name(entries[i].0),
        valid_value(encode_utf8(entries[i].1)),
    ensures
        fields_of(entries).contains(
            HeaderField {
                name: lower_case(entries[i].0),
                value: encode_utf8(entries[i].1),
                sensitive: true,
            },
        ),
{
    fields_around(entries, i);
    one_header_is_sent_as_printed(entries[i].0, entries[i].1);
    assert(entries[i] == (entries[i].0, entries[i].1));
    let at = fields_of(entries.take(i)).len() as int;
    assert(fields_of(entries)[at] == fields_of(seq![entries[i]])[0]);
}

/// Nothing else is sent: every field that is sent is the name and the value of some
/// header that the helper printed, and no field holds a line break, another control
/// character but the tab, or a name with one.
pub proof fn nothing_else_is_sent(entries: Seq<(Seq<char>, Seq<char>)>, k: int)
    requires
        0 <= k < fields_of(entries).len(),
    ensures
        exists|i: int|
            0 <= i < entries.len() && valid_name((#[trigger] entries[i]).0) && valid_value(
                encode_utf8(entries[i].1),
            ) && fields_of(entries)[k] == (HeaderField {
                name: lower_case(entries[i].0),
                value: encode_utf8(entries[i].1),
                sensitive: true,
            }),
        forall|j: int|
            0 <= j < fields_of(entries)[k].value.len() ==> {
                let b = #[trigger] fields_of(entries)[k].value[j];
                (b >= 32 || b == 9) && b != 127
            },
        forall|j: int|
            0 <= j < fields_of(entries)[k].name.len() ==> {
                let c = #[trigger] fields_of(entries)[k].name[j];
                '!' <= c <= '~' && c != ':' && !('A' <= c <= 'Z')
            },
    decreases entries.len(),
{
    let front = entries.drop_last();
    let last = entries.last();
    assert(entries =~= front + seq![last]);
    headers_are_sent_one_by_one(front, seq![last]);
    one_header_is_sent_as_printed(last.0, last.1);
    assert(last == (last.0, last.1));
    if k < fields_of(front).len() {
        nothing_else_is_sent(front, k);
        let i = choose|i: int|
            0 <= i < front.len() && valid_name((#[trigger] front[i]).0) && valid_value(
                encode_utf8(front[i].1),
            ) && fields_of(front)[k] == (HeaderField {
                name: lower_case(front[i].0),
                value: encode_utf8(front[i].1),
                sensitive: true,
            });
        assert(entries[i] == front[i]);
        assert(fields_of(entries)[k] == fields_of(front)[k]);
    } else {
        assert(entries[entries.len() - 1] == last);
        let field = fields_of(entries)[k];
        assert forall|j: int| 0 <= j < field.name.len() implies {
            let c = #[trigger] field.name[j];
            '!' <= c <= '~' && c != ':' && !('A' <= c <= 'Z')
        } by {
            assert(token_char(last.0[j]));
            only_capitals_are_changed(last.0, j);
        }
    }
}

/// A credential of printable ASCII under a name of letters, digits and hyphens is always
/// sent, and sent character for character: every byte is the character it was printed as,
/// from the first to the last.
pub proof fn an_ascii_credential_is_sent_character_for_character(
    name: Seq<char>,
    value: Seq<char>,
)
    requires
        1 <= name.len() <= 65535,
        forall|i: int|
            0 <= i < name.len() ==> 'a' <= (#[trigger] name[i]) <= 'z' || 'A' <= name[i] <= 'Z'
                || '0' <= name[i] <= '9' || name[i] == '-',
        forall|i: int| 0 <= i < value.len() ==> ' ' <= (#[trigger] value[i]) <= '~',
    ensures
        fields_of(seq![(name, value)]).len() == 1,
        fields_of(seq![(name, value)])[0].sensitive,
        fields_of(seq![(name, value)])[0].value.len() == value.len(),
        forall|j: int|
            0 <= j < value.len() ==> (#[trigger] fields_of(seq![(name, value)])[0].value[j]) as nat
                == value[j] as nat,
{
    vstd::utf8::is_ascii_chars_encode_utf8(value);
    let bytes = encode_utf8(value);
    assert forall|j: int| 0 <= j < bytes.len() implies ((#[trigger] bytes[j]) >= 32 && bytes[j]
        != 127 || bytes[j] == 9) by {
        assert(' ' <= value[j] <= '~');
    }
    one_header_is_sent_as_printed(name, value);
}

/// A stamped request carries what the helper printed: under a header's name stands its
/// value alone, byte for byte and sensitive, whatever the request held there before,
/// unless the helper itself printed another value for the name further on.
pub proof fn a_stamped_request_carries_what_was_printed(
    fields: Map<Seq<char>, Seq<(Seq<u8>, bool)>>,
    entries: Seq<(Seq<char>, Seq<char>)>,
    i: int,
)
    requires
        0 <= i < entries.len(),
        valid_name(entries[i].0),
        valid_value(encode_utf8(entries[i].1)),
        forall|j: int|
            i < j < entries.len() ==> lower_case((#[trigger] entries[j]).0) != lower_case(
                entries[i].0,
            ),
    ensures
        with_fields(fields, fields_of(entries)).contains_key(lower_case(entries[i].0)),
        with_fields(fields, fields_of(entries))[lower_case(entries[i].0)] == seq![
            (encode_utf8(entries[i].1), true),
        ],
{
    let name = lower_case(entries[i].0);
    let back = entries.skip(i + 1);
    let sent = fields_of(entries);
    let at = fields_of(entries.take(i)).len() as int;
    fields_around(entries, i);
    one_header_is_sent_as_printed(entries[i].0, entries[i].1);
    assert(entries[i] == (entries[i].0, entries[i].1));
    lower_case_is_valid(entries[i].0);
    assert(sent[at] == fields_of(seq![entries[i]])[0]);
    assert forall|k: int| at < k < sent.len() implies lower_case((#[trigger] sent[k]).name)
        != lower_case(sent[at].name) by {
        let m = k - at - 1;
        assert(sent[k] == fields_of(back)[m]);
        nothing_else_is_sent(back, m);
        let j = choose|j: int|
            0 <= j < back.len() && valid_name((#[trigger] back[j]).0) && valid_value(
                encode_utf8(back[j].1),
            ) && fields_of(back)[m] == (HeaderField {
                name: lower_case(back[j].0),
                value: encode_utf8(back[j].1),
                sensitive: true,
            });
        assert(back[j] == entries[i + 1 + j]);
        lower_case_is_valid(back[j].0);
    }
    the_helper_wins(fields, sent, at);
}

/// What stands for a header, for a variable and for a JSON object's members is all of
/// each, as it is.
pub proof fn what_is_shown_is_what_is_there(
    headers: Seq<Header>,
    members: Seq<(String, Option<String>)>,
    i: int,
    variable: Option<String>,
)
    ensures
        field_views(headers).len() == headers.len(),
        0 <= i < headers.len() ==> {
            &&& field_views(headers)[i].name == headers[i].name@
            &&& field_views(headers)[i].value == headers[i].value@
            &&& field_views(headers)[i].sensitive == headers[i].sensitive
        },
        member_texts(members).len() == members.len(),
        0 <= i < members.len() ==> {
            &&& member_texts(members)[i].0 == members[i].0@
            &&& member_texts(members)[i].1 is Some <==> members[i].1 is Some
            &&& members[i].1 matches Some(value) ==> member_texts(members)[i].1 == Some(value@)
        },
        variable is None ==> variable_text(variable) is None,
        variable matches Some(text) ==> variable_text(variable) == Some(text@),
        content_type().name == "content-type"@,
        content_type().value == encode_utf8("application/x-protobuf"@),
        !content_type().sensitive,
{
}

/// What stands for headers, for a JSON object and for an answer is all of each, and is
/// there exactly where each is there.
pub proof fn what_is_there_is_shown_whole(
    headers: Headers,
    members: Vec<(String, Option<String>)>,
    why: &'static str,
)
    ensures
        headers_texts(None) is None,
        headers_texts(Some(headers)) == Some(headers.entries()),
        object_texts(None) is None,
        object_texts(Some(members)) == Some(member_texts(members@)),
        answer_texts(Ok(headers)) == Ok::<Seq<(Seq<char>, Seq<char>)>, Seq<char>>(headers.entries()),
        answer_texts(Err(why)) == Err::<Seq<(Seq<char>, Seq<char>)>, Seq<char>>(why@),
{
}

/// A header name is visible ASCII without delimiters: one character at least, 65535 at
/// most, and none of them a delimiter, a space or outside ASCII.
pub proof fn a_name_is_visible_ascii_without_delimiters(name: Seq<char>)
    ensures
        valid_name(name) <==> 0 < name.len() < 65536 && forall|i: int|
            0 <= i < name.len() ==> {
                let c = #[trigger] name[i];
                ' ' < c < '\u{7f}' && !seq![
                    '"',
                    '(',
                    ')',
                    ',',
                    '/',
                    ':',
                    ';',
                    '<',
                    '=',
                    '>',
                    '?',
                    '@',
                    '[',
                    '\\',
                    ']',
                    '{',
                    '}',
                ].contains(c)
            },
{
    let delimiters = seq![
        '"',
        '(',
        ')',
        ',',
        '/',
        ':',
        ';',
        '<',
        '=',
        '>',
        '?',
        '@',
        '[',
        '\\',
        ']',
        '{',
        '}',
    ];
    assert forall|c: char| #[trigger] token_char(c) == (' ' < c < '\u{7f}' && !delimiters.contains(c)) by {
        if ' ' < c < '\u{7f}' && !token_char(c) {
            assert(delimiters[0] == '"' && delimiters[1] == '(' && delimiters[2] == ')' && delimiters[3]
                == ',' && delimiters[4] == '/' && delimiters[5] == ':' && delimiters[6] == ';');
            assert(delimiters[7] == '<' && delimiters[8] == '=' && delimiters[9] == '>' && delimiters[10]
                == '?' && delimiters[11] == '@' && delimiters[12] == '[' && delimiters[13] == '\\');
            assert(delimiters[14] == ']' && delimiters[15] == '{' && delimiters[16] == '}');
        }
    }
    if valid_name(name) {
        assert forall|i: int| 0 <= i < name.len() implies {
            let c = #[trigger] name[i];
            ' ' < c < '\u{7f}' && !delimiters.contains(c)
        } by {
            assert(token_char(name[i]));
        }
    } else if 0 < name.len() < 65536 {
        let i = choose|i: int| 0 <= i < name.len() && !token_char(#[trigger] name[i]);
        assert(!token_char(name[i]));
    }
}

/// A value is one that HTTP can carry unless a control character other than the tab
/// stands in it, wherever that is: bytes beyond ASCII are carried like any other.
pub proof fn only_a_control_character_keeps_a_value_back(before: Seq<u8>, b: u8, after: Seq<u8>)
    ensures
        valid_value(Seq::<u8>::empty()),
        valid_value(before + seq![b] + after) <==> valid_value(before) && valid_value(after) && !(b
            < 32 && b != 9) && b != 127,
{
    let value = before + seq![b] + after;
    assert(value[before.len() as int] == b);
    if valid_value(value) {
        assert forall|i: int| 0 <= i < before.len() implies ((#[trigger] before[i]) >= 32
            && before[i] != 127 || before[i] == 9) by {
            assert(value[i] == before[i]);
        }
        assert forall|i: int| 0 <= i < after.len() implies ((#[trigger] after[i]) >= 32 && after[i]
            != 127 || after[i] == 9) by {
            assert(value[before.len() + 1 + i] == after[i]);
        }
    }
}

} // verus!
