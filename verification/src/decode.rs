//! The decoder: from the events of a status document to a reading.
//!
//! The first element of the document is its root, whatever its name. In it
//! one `Device` element carries the attributes `Name` and `Serial`, neither
//! empty, and holds one `Measurements` element. That holds at least one
//! `Measurement` element; they stand side by side, with nothing but
//! comments and the like between them, and each carries `Type` and, each
//! optional, `Value` and `Unit`. Names with a prefix are other names. Other
//! elements, other attributes and character data are passed over. A document
//! of any other shape gives no reading at all.

use crate::reading::{samples_view, DeviceReading, MeasurementSample, ReadingView, SampleView};
use crate::tokens::{
    attributes_view, scan, tokens_view, xml_tokens, Attribute, AttributeView, Element,
    ElementView, Token, TokenView,
};
use vstd::prelude::*;
use vstd::string::*;

verus! {

/// Why a document gives no reading.
#[derive(Debug, Clone, Copy, PartialEq, Eq, Structural)]
pub enum DecodeError {
    /// The text is no well-formed XML.
    Malformed,
    /// The document is well formed, but not of the expected shape.
    Mismatch,
}

/// The first position at or after `from` that holds a token of the document's
/// content; the number of tokens where there is none.
pub open spec fn first_significant(tokens: Seq<TokenView>, from: int) -> int
    decreases tokens.len() - from,
{
    if 0 <= from < tokens.len() && tokens[from] is Other {
        first_significant(tokens, from + 1)
    } else {
        from
    }
}

/// The position of the token that closes the content that goes on at `at`
/// with `depth` elements open inside it; none where the document ends before.
pub open spec fn content_end(tokens: Seq<TokenView>, at: int, depth: nat) -> Option<int>
    decreases tokens.len() - at,
{
    if at < 0 || at >= tokens.len() {
        None
    } else {
        match tokens[at] {
            TokenView::Open(_) => content_end(tokens, at + 1, depth + 1),
            TokenView::Close => if depth == 0 {
                Some(at)
            } else {
                content_end(tokens, at + 1, (depth - 1) as nat)
            },
            TokenView::End => None,
            TokenView::Text(_) => content_end(tokens, at + 1, depth),
            TokenView::Other => content_end(tokens, at + 1, depth),
        }
    }
}

/// One piece of an element's content: character data, or a child element,
/// given by the position of the token that opens it.
pub enum ItemView {
    Text,
    Child(int),
}

/// The pieces of the content that goes on at `at` with `depth` elements open
/// inside it, in the order of the document. Only what stands directly in the
/// content is a piece of it.
pub open spec fn content_items(tokens: Seq<TokenView>, at: int, depth: nat) -> Seq<ItemView>
    decreases tokens.len() - at,
{
    if at < 0 || at >= tokens.len() {
        Seq::empty()
    } else {
        match tokens[at] {
            TokenView::Open(_) => {
                let inner = content_items(tokens, at + 1, depth + 1);
                if depth == 0 {
                    seq![ItemView::Child(at)] + inner
                } else {
                    inner
                }
            },
            TokenView::Close => if depth == 0 {
                Seq::empty()
            } else {
                content_items(tokens, at + 1, (depth - 1) as nat)
            },
            TokenView::End => Seq::empty(),
            TokenView::Text(_) => {
                let inner = content_items(tokens, at + 1, depth);
                if depth == 0 {
                    seq![ItemView::Text] + inner
                } else {
                    inner
                }
            },
            TokenView::Other => content_items(tokens, at + 1, depth),
        }
    }
}

/// The element has the plain name `name`: no prefix, and that local name.
pub open spec fn is_named(element: ElementView, name: Seq<char>) -> bool {
    element.prefix is None && element.name == name
}

/// The piece is a child element with the plain name `name`.
pub open spec fn is_child_named(tokens: Seq<TokenView>, item: ItemView, name: Seq<char>) -> bool {
    &&& item matches ItemView::Child(at)
    &&& 0 <= at < tokens.len()
    &&& tokens[at] matches TokenView::Open(element)
    &&& is_named(element, name)
}

/// The positions of the child elements with the plain name `name`, in order.
pub open spec fn children_named(tokens: Seq<TokenView>, items: Seq<ItemView>, name: Seq<char>) -> Seq<
    int,
>
    decreases items.len(),
{
    if items.len() == 0 {
        Seq::empty()
    } else {
        let before = children_named(tokens, items.drop_last(), name);
        if is_child_named(tokens, items.last(), name) {
            before.push(items.last()->Child_0)
        } else {
            before
        }
    }
}

/// The one child element with the plain name `name`; none where there is no
/// such child, or more than one.
pub open spec fn only_child(tokens: Seq<TokenView>, items: Seq<ItemView>, name: Seq<char>) -> Option<
    int,
> {
    let found = children_named(tokens, items, name);
    if found.len() == 1 {
        Some(found[0])
    } else {
        None
    }
}

/// The values of the attributes with the plain name `name`, in order.
pub open spec fn values_named(attributes: Seq<AttributeView>, name: Seq<char>) -> Seq<Seq<char>>
    decreases attributes.len(),
{
    if attributes.len() == 0 {
        Seq::empty()
    } else {
        let before = values_named(attributes.drop_last(), name);
        let last = attributes.last();
        if last.prefix is None && last.name == name {
            before.push(last.value)
        } else {
            before
        }
    }
}

/// The pieces from `first` up to `end` are all the `Measurement` elements of
/// the content, and there is at least one.
pub open spec fn is_run(tokens: Seq<TokenView>, items: Seq<ItemView>, first: int, end: int) -> bool {
    &&& 0 <= first < end <= items.len()
    &&& forall|k: int|
        0 <= k < items.len() ==> (#[trigger] is_child_named(tokens, items[k], "Measurement"@) <==> first
            <= k < end)
}

/// The sample that a `Measurement` element stands for: its `Type`, and its
/// `Value` and `Unit` where it has them. None where `Type` is missing or one
/// of the three is given twice.
pub open spec fn sample_of(element: ElementView) -> Option<SampleView> {
    let kinds = values_named(element.attributes, "Type"@);
    let values = values_named(element.attributes, "Value"@);
    let units = values_named(element.attributes, "Unit"@);
    if kinds.len() == 1 && values.len() <= 1 && units.len() <= 1 {
        Some(
            SampleView {
                kind: kinds[0],
                raw_value: if values.len() == 1 {
                    Some(values[0])
                } else {
                    None
                },
                unit: if units.len() == 1 {
                    Some(units[0])
                } else {
                    None
                },
            },
        )
    } else {
        None
    }
}

/// The sample of the piece at `k`, which is a child element.
pub open spec fn sample_at(tokens: Seq<TokenView>, items: Seq<ItemView>, k: int) -> Option<
    SampleView,
> {
    sample_of(tokens[items[k]->Child_0]->Open_0)
}

/// The samples of the `Measurements` element that opens at `container`: its
/// `Measurement` elements stand side by side, and each gives a sample.
pub open spec fn samples_of(tokens: Seq<TokenView>, container: int) -> Option<Seq<SampleView>> {
    let items = content_items(tokens, container + 1, 0);
    if exists|first: int, end: int| is_run(tokens, items, first, end) {
        let (first, end) = choose|first: int, end: int| is_run(tokens, items, first, end);
        if forall|k: int| first <= k < end ==> (#[trigger] sample_at(tokens, items, k)) is Some {
            Some(Seq::new((end - first) as nat, |k: int| sample_at(tokens, items, first + k)->0))
        } else {
            None
        }
    } else {
        None
    }
}

/// The reading of the `Device` element that opens at `device`.
pub open spec fn device_of(tokens: Seq<TokenView>, device: int) -> Option<ReadingView> {
    let element = tokens[device]->Open_0;
    let names = values_named(element.attributes, "Name"@);
    let serials = values_named(element.attributes, "Serial"@);
    let items = content_items(tokens, device + 1, 0);
    match only_child(tokens, items, "Measurements"@) {
        Some(container) => match samples_of(tokens, container) {
            Some(samples) => if names.len() == 1 && serials.len() == 1 && names[0].len() > 0
                && serials[0].len() > 0 {
                Some(ReadingView { name: names[0], serial: serials[0], samples })
            } else {
                None
            },
            None => None,
        },
        None => None,
    }
}

/// The reading of a document given by its tokens: the first token of the
/// content opens the root element, which is closed again and holds one
/// `Device` element.
pub open spec fn reading_of(tokens: Seq<TokenView>) -> Option<ReadingView> {
    let root = first_significant(tokens, 0);
    if 0 <= root < tokens.len() && tokens[root] is Open && content_end(tokens, root + 1, 0)
        is Some {
        match only_child(tokens, content_items(tokens, root + 1, 0), "Device"@) {
            Some(device) => device_of(tokens, device),
            None => None,
        }
    } else {
        None
    }
}

/// What decoding a list of tokens gives.
pub open spec fn decoded_tokens(tokens: Seq<TokenView>) -> Result<ReadingView, DecodeError> {
    match reading_of(tokens) {
        Some(reading) => Ok(reading),
        None => Err(DecodeError::Mismatch),
    }
}

/// What decoding a document gives.
pub open spec fn decoded(text: Seq<char>) -> Result<ReadingView, DecodeError> {
    match xml_tokens(text) {
        Some(tokens) => decoded_tokens(tokens),
        None => Err(DecodeError::Malformed),
    }
}

/// One piece of an element's content, as the decoder holds it.
enum Item {
    Text,
    Child(usize),
}

impl View for Item {
    type V = ItemView;

    closed spec fn view(&self) -> ItemView {
        match self {
            Item::Text => ItemView::Text,
            Item::Child(at) => ItemView::Child(*at as int),
        }
    }
}

spec fn items_view(items: Seq<Item>) -> Seq<ItemView> {
    Seq::new(items.len(), |i: int| items[i]@)
}

/// Skips what carries no content.
fn skip_other(tokens: &Vec<Token>, from: usize) -> (at: usize)
    requires
        from <= tokens.len(),
    ensures
        from <= at <= tokens.len(),
        at == first_significant(tokens_view(tokens@), from as int),
{
    let mut at: usize = from;
    while at < tokens.len() && matches!(tokens[at], Token::Other)
        invariant
            from <= at <= tokens.len(),
            first_significant(tokens_view(tokens@), from as int) == first_significant(
                tokens_view(tokens@),
                at as int,
            ),
        decreases tokens.len() - at,
    {
        at = at + 1;
    }
    at
}

/// Reads the content that starts at `at` up to the token that closes it.
fn read_content(tokens: &Vec<Token>, at: usize) -> (r: (Vec<Item>, Option<usize>))
    requires
        at <= tokens.len(),
    ensures
        items_view(r.0@) == content_items(tokens_view(tokens@), at as int, 0),
        r.1 is Some == content_end(tokens_view(tokens@), at as int, 0) is Some,
        r.1 matches Some(end) ==> content_end(tokens_view(tokens@), at as int, 0) == Some(
            end as int,
        ),
{
    let ghost all = tokens_view(tokens@);
    let mut items: Vec<Item> = Vec::new();
    let mut depth: usize = 0;
    let mut i: usize = at;
    assert(items_view(items@) + content_items(all, at as int, 0) =~= content_items(
        all,
        at as int,
        0,
    ));
    while i < tokens.len()
        invariant
            all == tokens_view(tokens@),
            at <= i <= tokens.len(),
            depth <= i - at,
            content_end(all, at as int, 0) == content_end(all, i as int, depth as nat),
            content_items(all, at as int, 0) == items_view(items@) + content_items(
                all,
                i as int,
                depth as nat,
            ),
        decreases tokens.len() - i,
    {
        let ghost before = items_view(items@);
        let ghost rest = content_items(all, i + 1, depth as nat);
        match &tokens[i] {
            Token::Open(_) => {
                if depth == 0 {
                    items.push(Item::Child(i));
                    proof {
                        let inner = content_items(all, i + 1, 1);
                        assert(before + (seq![ItemView::Child(i as int)] + inner)
                            =~= before.push(ItemView::Child(i as int)) + inner);
                    }
                }
                depth = depth + 1;
            },
            Token::Close => {
                if depth == 0 {
                    return (items, Some(i));
                }
                depth = depth - 1;
            },
            Token::End => {
                return (items, None);
            },
            Token::Text(_) => {
                if depth == 0 {
                    items.push(Item::Text);
                    proof {
                        assert(before + (seq![ItemView::Text] + rest) =~= before.push(
                            ItemView::Text,
                        ) + rest);
                    }
                }
            },
            Token::Other => {},
        }
        i = i + 1;
    }
    (items, None)
}

/// Whether the element has the plain name `name`.
fn has_name(element: &Element, name: &String) -> (r: bool)
    ensures
        r == is_named(element@, name@),
{
    element.prefix.is_none() && element.name == *name
}

/// Looks for the one child element with the plain name `name`.
fn find_only_child(tokens: &Vec<Token>, items: &Vec<Item>, name: &String) -> (r: Option<usize>)
    ensures
        r is Some == only_child(tokens_view(tokens@), items_view(items@), name@) is Some,
        r matches Some(at) ==> at < tokens.len() && tokens[at as int] is Open && only_child(
            tokens_view(tokens@),
            items_view(items@),
            name@,
        ) == Some(at as int),
{
    let ghost all = tokens_view(tokens@);
    let ghost pieces = items_view(items@);
    let mut found: Option<usize> = None;
    let mut many: bool = false;
    let mut i: usize = 0;
    while i < items.len()
        invariant
            all == tokens_view(tokens@),
            pieces == items_view(items@),
            i <= items.len(),
            many ==> children_named(all, pieces.take(i as int), name@).len() > 1,
            !many && found is None ==> children_named(all, pieces.take(i as int), name@).len()
                == 0,
            !many ==> (found matches Some(at) ==> at < tokens.len() && tokens[at as int] is Open
                && children_named(all, pieces.take(i as int), name@) == seq![at as int]),
        decreases items.len() - i,
    {
        proof {
            assert(pieces.take(i + 1).drop_last() =~= pieces.take(i as int));
        }
        match &items[i] {
            Item::Child(at) => {
                if *at < tokens.len() {
                    match &tokens[*at] {
                        Token::Open(element) => {
                            if has_name(element, name) {
                                if found.is_some() {
                                    many = true;
                                } else {
                                    found = Some(*at);
                                }
                            }
                        },
                        _ => {},
                    }
                }
            },
            Item::Text => {},
        }
        i = i + 1;
    }
    assert(pieces.take(items.len() as int) =~= pieces);
    if many {
        None
    } else {
        found
    }
}

/// How often an attribute is given, and its value where it is given once.
enum Given {
    Never,
    Once(String),
    Repeatedly,
}

/// Looks up the attribute with the plain name `name`.
fn lookup(attributes: &Vec<Attribute>, name: &String) -> (r: Given)
    ensures
        match r {
            Given::Never => values_named(attributes_view(attributes@), name@).len() == 0,
            Given::Once(value) => values_named(attributes_view(attributes@), name@) == seq![
                value@,
            ],
            Given::Repeatedly => values_named(attributes_view(attributes@), name@).len() > 1,
        },
{
    let ghost all = attributes_view(attributes@);
    let mut r = Given::Never;
    let mut i: usize = 0;
    while i < attributes.len()
        invariant
            all == attributes_view(attributes@),
            i <= attributes.len(),
            match r {
                Given::Never => values_named(all.take(i as int), name@).len() == 0,
                Given::Once(value) => values_named(all.take(i as int), name@) == seq![value@],
                Given::Repeatedly => values_named(all.take(i as int), name@).len() > 1,
            },
        decreases attributes.len() - i,
    {
        proof {
            assert(all.take(i + 1).drop_last() =~= all.take(i as int));
        }
        let attribute = &attributes[i];
        if attribute.prefix.is_none() && attribute.name == *name {
            r = match r {
                Given::Never => Given::Once(attribute.value.clone()),
                _ => Given::Repeatedly,
            };
        }
        i = i + 1;
    }
    assert(all.take(attributes.len() as int) =~= all);
    r
}

/// The names that the decoder looks for.
struct Names {
    device: String,
    name: String,
    serial: String,
    measurements: String,
    measurement: String,
    kind: String,
    value: String,
    unit: String,
}

impl Names {
    spec fn wf(&self) -> bool {
        &&& self.device@ == "Device"@
        &&& self.name@ == "Name"@
        &&& self.serial@ == "Serial"@
        &&& self.measurements@ == "Measurements"@
        &&& self.measurement@ == "Measurement"@
        &&& self.kind@ == "Type"@
        &&& self.value@ == "Value"@
        &&& self.unit@ == "Unit"@
    }

    fn new() -> (names: Names)
        ensures
            names.wf(),
    {
        Names {
            device: String::from_str("Device"),
            name: String::from_str("Name"),
            serial: String::from_str("Serial"),
            measurements: String::from_str("Measurements"),
            measurement: String::from_str("Measurement"),
            kind: String::from_str("Type"),
            value: String::from_str("Value"),
            unit: String::from_str("Unit"),
        }
    }
}

/// Reads the sample off a `Measurement` element.
fn read_sample(element: &Element, names: &Names) -> (r: Option<MeasurementSample>)
    requires
        names.wf(),
    ensures
        r is Some == sample_of(element@) is Some,
        r matches Some(sample) ==> Some(sample@) == sample_of(element@),
{
    let kind = lookup(&element.attributes, &names.kind);
    let value = lookup(&element.attributes, &names.value);
    let unit = lookup(&element.attributes, &names.unit);
    match kind {
        Given::Once(kind) => {
            let raw_value = match value {
                Given::Never => None,
                Given::Once(v) => Some(v),
                Given::Repeatedly => {
                    return None;
                },
            };
            let unit = match unit {
                Given::Never => None,
                Given::Once(u) => Some(u),
                Given::Repeatedly => {
                    return None;
                },
            };
            Some(MeasurementSample { kind, raw_value, unit })
        },
        _ => None,
    }
}

/// Whether the piece is a child element with the plain name `name`.
fn is_child(tokens: &Vec<Token>, item: &Item, name: &String) -> (r: bool)
    ensures
        r == is_child_named(tokens_view(tokens@), item@, name@),
{
    match item {
        Item::Child(at) => {
            if *at < tokens.len() {
                match &tokens[*at] {
                    Token::Open(element) => has_name(element, name),
                    _ => false,
                }
            } else {
                false
            }
        },
        Item::Text => false,
    }
}

/// A content has at most one run of `Measurement` elements.
proof fn lemma_run_is_unique(
    tokens: Seq<TokenView>,
    items: Seq<ItemView>,
    first: int,
    end: int,
    other_first: int,
    other_end: int,
)
    requires
        is_run(tokens, items, first, end),
        is_run(tokens, items, other_first, other_end),
    ensures
        first == other_first,
        end == other_end,
{
    assert(is_child_named(tokens, items[first], "Measurement"@));
    assert(is_child_named(tokens, items[other_first], "Measurement"@));
    assert(is_child_named(tokens, items[end - 1], "Measurement"@));
    assert(is_child_named(tokens, items[other_end - 1], "Measurement"@));
}

/// Looks for the run of `Measurement` elements.
fn find_run(tokens: &Vec<Token>, items: &Vec<Item>, name: &String) -> (r: Option<(usize, usize)>)
    requires
        name@ == "Measurement"@,
    ensures
        r matches Some((first, end)) ==> end <= items.len() && is_run(
            tokens_view(tokens@),
            items_view(items@),
            first as int,
            end as int,
        ),
        r is None ==> forall|first: int, end: int|
            !is_run(tokens_view(tokens@), items_view(items@), first, end),
{
    let ghost all = tokens_view(tokens@);
    let ghost pieces = items_view(items@);
    let mut first: usize = 0;
    while first < items.len() && !is_child(tokens, &items[first], name)
        invariant
            all == tokens_view(tokens@),
            pieces == items_view(items@),
            name@ == "Measurement"@,
            first <= items.len(),
            forall|k: int| 0 <= k < first ==> !is_child_named(all, #[trigger] pieces[k], name@),
        decreases items.len() - first,
    {
        first = first + 1;
    }
    if first == items.len() {
        assert forall|a: int, b: int| !is_run(all, pieces, a, b) by {
            if is_run(all, pieces, a, b) {
                assert(is_child_named(all, pieces[a], "Measurement"@));
            }
        }
        return None;
    }
    let mut end: usize = first + 1;
    while end < items.len() && is_child(tokens, &items[end], name)
        invariant
            all == tokens_view(tokens@),
            pieces == items_view(items@),
            name@ == "Measurement"@,
            first < end <= items.len(),
            forall|k: int| first <= k < end ==> is_child_named(all, #[trigger] pieces[k], name@),
        decreases items.len() - end,
    {
        end = end + 1;
    }
    let mut k: usize = end;
    while k < items.len()
        invariant
            all == tokens_view(tokens@),
            pieces == items_view(items@),
            name@ == "Measurement"@,
            first < end <= k <= items.len(),
            is_child_named(all, pieces[first as int], name@),
            end < items.len() ==> !is_child_named(all, pieces[end as int], name@),
            forall|j: int| end <= j < k ==> !is_child_named(all, #[trigger] pieces[j], name@),
        decreases items.len() - k,
    {
        if is_child(tokens, &items[k], name) {
            assert forall|a: int, b: int| !is_run(all, pieces, a, b) by {
                if is_run(all, pieces, a, b) {
                    assert(is_child_named(all, pieces[k as int], "Measurement"@));
                }
            }
            return None;
        }
        k = k + 1;
    }
    Some((first, end))
}

/// Reads the samples of the `Measurements` element that opens at `container`.
fn read_samples(tokens: &Vec<Token>, container: usize, names: &Names) -> (r: Option<
    Vec<MeasurementSample>,
>)
    requires
        container < tokens.len(),
        names.wf(),
    ensures
        r is Some == samples_of(tokens_view(tokens@), container as int) is Some,
        r matches Some(samples) ==> Some(samples_view(samples@)) == samples_of(
            tokens_view(tokens@),
            container as int,
        ),
{
    let ghost all = tokens_view(tokens@);
    let (items, _) = read_content(tokens, container + 1);
    let ghost pieces = items_view(items@);
    match find_run(tokens, &items, &names.measurement) {
        None => None,
        Some((first, end)) => {
            assert forall|f: int, e: int| #[trigger]
                is_run(all, pieces, f, e) implies f == first && e == end by {
                lemma_run_is_unique(all, pieces, first as int, end as int, f, e);
            }
            let mut samples: Vec<MeasurementSample> = Vec::new();
            let mut k: usize = first;
            while k < end
                invariant
                    all == tokens_view(tokens@),
                    pieces == items_view(items@),
                    names.wf(),
                    first <= k <= end <= items.len(),
                    pieces == content_items(all, container + 1, 0),
                    is_run(all, pieces, first as int, end as int),
                    forall|f: int, e: int| #[trigger]
                        is_run(all, pieces, f, e) ==> f == first && e == end,
                    samples.len() == k - first,
                    forall|j: int|
                        first <= j < k ==> (#[trigger] sample_at(all, pieces, j)) == Some(
                            samples[j - first]@,
                        ),
                decreases end - k,
            {
                assert(is_child_named(all, pieces[k as int], "Measurement"@));
                let sample = match &items[k] {
                    Item::Child(at) => {
                        match &tokens[*at] {
                            Token::Open(element) => read_sample(element, names),
                            _ => None,
                        }
                    },
                    Item::Text => None,
                };
                assert(sample is Some == sample_at(all, pieces, k as int) is Some);
                match sample {
                    Some(s) => {
                        samples.push(s);
                    },
                    None => {
                        return None;
                    },
                }
                k = k + 1;
            }
            Some(samples)
        },
    }
}

/// Reads the `Device` element that opens at `device`.
fn read_device(tokens: &Vec<Token>, device: usize, names: &Names) -> (r: Option<DeviceReading>)
    requires
        device < tokens.len(),
        tokens[device as int] is Open,
        names.wf(),
    ensures
        r is Some == device_of(tokens_view(tokens@), device as int) is Some,
        r matches Some(reading) ==> Some(reading@) == device_of(
            tokens_view(tokens@),
            device as int,
        ),
{
    match &tokens[device] {
        Token::Open(element) => {
            let (items, _) = read_content(tokens, device + 1);
            let container = match find_only_child(tokens, &items, &names.measurements) {
                Some(container) => container,
                None => {
                    return None;
                },
            };
            let samples = match read_samples(tokens, container, names) {
                Some(samples) => samples,
                None => {
                    return None;
                },
            };
            let name = match lookup(&element.attributes, &names.name) {
                Given::Once(name) => name,
                _ => {
                    return None;
                },
            };
            let serial = match lookup(&element.attributes, &names.serial) {
                Given::Once(serial) => serial,
                _ => {
                    return None;
                },
            };
            DeviceReading::new(name, serial, samples)
        },
        _ => None,
    }
}

/// What a decoding hands back, as mathematical values.
pub open spec fn decoding_view(r: Result<DeviceReading, DecodeError>) -> Result<
    ReadingView,
    DecodeError,
> {
    match r {
        Ok(reading) => Ok(reading@),
        Err(e) => Err(e),
    }
}

/// Decodes a document given by its tokens. The reading holds one sample for
/// each `Measurement` element, in the order of the document; a document of
/// another shape is a mismatch.
pub fn decode_tokens(tokens: &Vec<Token>) -> (r: Result<DeviceReading, DecodeError>)
    ensures
        decoding_view(r) == decoded_tokens(tokens_view(tokens@)),
{
    let names = Names::new();
    let root = skip_other(tokens, 0);
    if root >= tokens.len() {
        return Err(DecodeError::Mismatch);
    }
    match &tokens[root] {
        Token::Open(_) => {
            let (items, end) = read_content(tokens, root + 1);
            if end.is_none() {
                return Err(DecodeError::Mismatch);
            }
            match find_only_child(tokens, &items, &names.device) {
                Some(device) => match read_device(tokens, device, &names) {
                    Some(reading) => Ok(reading),
                    None => Err(DecodeError::Mismatch),
                },
                None => Err(DecodeError::Mismatch),
            }
        },
        _ => Err(DecodeError::Mismatch),
    }
}

/// Decodes a status document: well-formed XML of the expected shape gives the
/// reading, anything else the reason why there is none.
pub fn decode(text: &str) -> (r: Result<DeviceReading, DecodeError>)
    ensures
        decoding_view(r) == decoded(text@),
{
    match scan(text) {
        Ok(tokens) => decode_tokens(&tokens),
        Err(_) => Err(DecodeError::Malformed),
    }
}

/// The postcondition of [`decode`]: what a decoding of `text` may hand back.
pub open spec fn is_decoding_of(text: Seq<char>, r: Result<DeviceReading, DecodeError>) -> bool {
    decoding_view(r) == decoded(text)
}

/// Decoding the same document twice gives the same: two readings that are
/// equal in every part, or the same error.
pub proof fn lemma_decoding_is_repeatable(
    text: Seq<char>,
    first: Result<DeviceReading, DecodeError>,
    second: Result<DeviceReading, DecodeError>,
)
    requires
        is_decoding_of(text, first),
        is_decoding_of(text, second),
    ensures
        decoding_view(first) == decoding_view(second),
{
}

/// The tokens of a plain status document: `lead` tokens without content,
/// then the root element, in it the device, in it the container, in it the
/// measurements side by side, each closed at once, and the end.
pub open spec fn document(
    lead: nat,
    root: ElementView,
    device: ElementView,
    container: ElementView,
    measurements: Seq<ElementView>,
) -> Seq<TokenView> {
    let n = measurements.len() as int;
    Seq::new(
        (lead + 2 * n + 7) as nat,
        |i: int|
            {
                let j = i - lead;
                if j < 0 {
                    TokenView::Other
                } else if j == 0 {
                    TokenView::Open(root)
                } else if j == 1 {
                    TokenView::Open(device)
                } else if j == 2 {
                    TokenView::Open(container)
                } else if j < 3 + 2 * n {
                    if (j - 3) % 2 == 0 {
                        TokenView::Open(measurements[(j - 3) / 2])
                    } else {
                        TokenView::Close
                    }
                } else if j < 6 + 2 * n {
                    TokenView::Close
                } else {
                    TokenView::End
                }
            },
    )
}

/// The tokens without content at the start of a plain document are skipped.
proof fn lemma_lead_skipped(
    lead: nat,
    root: ElementView,
    device: ElementView,
    container: ElementView,
    measurements: Seq<ElementView>,
    i: int,
)
    requires
        0 <= i <= lead,
    ensures
        first_significant(document(lead, root, device, container, measurements), i) == lead,
    decreases lead - i,
{
    if i < lead {
        lemma_lead_skipped(lead, root, device, container, measurements, i + 1);
    }
}

/// Inside an open element the measurements of a plain document neither end
/// the content nor add a piece to it.
proof fn lemma_measurements_nested(
    lead: nat,
    root: ElementView,
    device: ElementView,
    container: ElementView,
    measurements: Seq<ElementView>,
    i: int,
    depth: nat,
)
    requires
        0 <= i <= measurements.len(),
        depth > 0,
    ensures
        ({
            let tokens = document(lead, root, device, container, measurements);
            let after = lead + 3 + 2 * (measurements.len() as int);
            &&& content_end(tokens, lead + 3 + 2 * i, depth) == content_end(tokens, after, depth)
            &&& content_items(tokens, lead + 3 + 2 * i, depth) == content_items(
                tokens,
                after,
                depth,
            )
        }),
    decreases measurements.len() - i,
{
    let tokens = document(lead, root, device, container, measurements);
    if i < measurements.len() {
        let at = lead + 3 + 2 * i;
        assert(content_end(tokens, at + 1, depth + 1) == content_end(tokens, at + 2, depth));
        assert(content_items(tokens, at + 1, depth + 1) == content_items(tokens, at + 2, depth));
        lemma_measurements_nested(lead, root, device, container, measurements, i + 1, depth);
    }
}

/// The pieces of the container of a plain document are its measurements.
proof fn lemma_measurements_pieces(
    lead: nat,
    root: ElementView,
    device: ElementView,
    container: ElementView,
    measurements: Seq<ElementView>,
    i: int,
)
    requires
        0 <= i <= measurements.len(),
    ensures
        content_items(
            document(lead, root, device, container, measurements),
            lead + 3 + 2 * i,
            0,
        ) == Seq::new(
            (measurements.len() - i) as nat,
            |k: int| ItemView::Child(lead + 3 + 2 * (i + k)),
        ),
    decreases measurements.len() - i,
{
    let tokens = document(lead, root, device, container, measurements);
    let at = lead + 3 + 2 * i;
    if i < measurements.len() {
        assert(content_items(tokens, at, 0) == seq![ItemView::Child(at)] + content_items(
            tokens,
            at + 1,
            1,
        ));
        lemma_measurements_pieces(lead, root, device, container, measurements, i + 1);
    }
}

/// The elements make a status document: the device is named and has a
/// non-empty `Name` and `Serial`, once each; the container is named; there
/// is a measurement, and each measurement is named and gives a sample.
pub open spec fn is_status(
    device: ElementView,
    container: ElementView,
    measurements: Seq<ElementView>,
) -> bool {
    &&& is_named(device, "Device"@)
    &&& values_named(device.attributes, "Name"@).len() == 1
    &&& values_named(device.attributes, "Name"@)[0].len() > 0
    &&& values_named(device.attributes, "Serial"@).len() == 1
    &&& values_named(device.attributes, "Serial"@)[0].len() > 0
    &&& is_named(container, "Measurements"@)
    &&& measurements.len() > 0
    &&& forall|i: int|
        0 <= i < measurements.len() ==> is_named(#[trigger] measurements[i], "Measurement"@)
            && sample_of(measurements[i]) is Some
}

/// Every plain status document decodes, to a reading that holds one sample
/// for each `Measurement` element, in the order of the document; a sample has
/// no value exactly where the element has no `Value` attribute.
pub proof fn lemma_document_decodes(
    lead: nat,
    root: ElementView,
    device: ElementView,
    container: ElementView,
    measurements: Seq<ElementView>,
)
    requires
        is_status(device, container, measurements),
    ensures
        decoded_tokens(document(lead, root, device, container, measurements)) matches Ok(reading)
            && {
            &&& reading.name == values_named(device.attributes, "Name"@)[0]
            &&& reading.serial == values_named(device.attributes, "Serial"@)[0]
            &&& reading.samples.len() == measurements.len()
            &&& forall|i: int|
                0 <= i < measurements.len() ==> Some(#[trigger] reading.samples[i]) == sample_of(
                    measurements[i],
                )
            &&& forall|i: int|
                0 <= i < measurements.len() ==> ((#[trigger] reading.samples[i]).raw_value is None
                    <==> values_named(measurements[i].attributes, "Value"@).len() == 0)
        },
{
    let tokens = document(lead, root, device, container, measurements);
    let n = measurements.len() as int;
    let o = lead as int;
    let after = o + 3 + 2 * n;
    let none = Seq::<ItemView>::empty();
    lemma_lead_skipped(lead, root, device, container, measurements, 0);
    // the three closing tags
    assert(content_end(tokens, after + 2, 0) == Some(after + 2));
    assert(content_end(tokens, after + 1, 1) == Some(after + 2));
    assert(content_items(tokens, after + 2, 0) == none);
    assert(content_items(tokens, after + 1, 0) == none);
    assert(content_items(tokens, after + 1, 1) == none);
    // the root's content
    lemma_measurements_nested(lead, root, device, container, measurements, 0, 2);
    assert(content_end(tokens, o + 1, 0) == content_end(tokens, o + 2, 1));
    assert(content_items(tokens, o + 2, 1) == content_items(tokens, o + 3, 2));
    let in_root = content_items(tokens, o + 1, 0);
    assert(children_named(tokens, in_root.drop_last(), "Device"@) == Seq::<int>::empty());
    // the device's content
    lemma_measurements_nested(lead, root, device, container, measurements, 0, 1);
    let in_device = content_items(tokens, o + 2, 0);
    assert(children_named(tokens, in_device.drop_last(), "Measurements"@) == Seq::<int>::empty());
    // the container's content
    lemma_measurements_pieces(lead, root, device, container, measurements, 0);
    let pieces = content_items(tokens, o + 3, 0);
    assert(forall|k: int|
        0 <= k < n ==> #[trigger] tokens[o + 3 + 2 * k] == TokenView::Open(measurements[k]));
    assert(forall|k: int|
        0 <= k < pieces.len() ==> #[trigger] is_child_named(tokens, pieces[k], "Measurement"@));
    assert(is_run(tokens, pieces, 0, n));
    let (first, end) = choose|first: int, end: int| is_run(tokens, pieces, first, end);
    lemma_run_is_unique(tokens, pieces, 0, n, first, end);
    assert(forall|k: int|
        0 <= k < n ==> (#[trigger] sample_at(tokens, pieces, k)) == sample_of(measurements[k]));
    let samples = samples_of(tokens, o + 2)->0;
    assert(forall|i: int| 0 <= i < n ==> Some(#[trigger] samples[i]) == sample_of(measurements[i]));
}

/// A text that the reader takes for a plain status document decodes to the
/// reading of that document.
pub proof fn lemma_status_text_decodes(
    text: Seq<char>,
    lead: nat,
    root: ElementView,
    device: ElementView,
    container: ElementView,
    measurements: Seq<ElementView>,
)
    requires
        xml_tokens(text) == Some(document(lead, root, device, container, measurements)),
        is_status(device, container, measurements),
    ensures
        decoded(text) == decoded_tokens(document(lead, root, device, container, measurements)),
        decoded(text) matches Ok(reading) && reading.samples.len() == measurements.len(),
{
    lemma_document_decodes(lead, root, device, container, measurements);
}

} // verus!
