//! The path attributes that a route carries: origin, AS path and next hop.

use vstd::prelude::*;
use vstd::slice::slice_subrange;
use bytes::BytesMut;
use crate::bgp_type::{AutonomousSystemNumber, Ipv4Address};
use crate::buffer::{bytes_contents, put_slice, put_u16, put_u8};
use crate::error::ConvertBgpMessageToBytesError;
use crate::wire::{
    lemma_u16_bytes_round_trip, lemma_u16_round_trip, lemma_u32_bytes_round_trip,
    lemma_u32_round_trip, read_u16, read_u32, u16_be, u16_from_be, u32_be, u32_from_be,
};

verus! {

/// How a route came to be known.
#[derive(PartialEq, Eq, Debug, Clone, Copy, Hash, Structural)]
pub enum Origin {
    Igp,
    Egp,
    Incomplete,
}

impl Origin {
    /// The byte that stands for the origin on the wire.
    pub open spec fn code(self) -> u8 {
        match self {
            Origin::Igp => 0,
            Origin::Egp => 1,
            Origin::Incomplete => 2,
        }
    }

    /// The origin that a byte stands for, if any.
    pub open spec fn of_code(code: u8) -> Option<Origin> {
        if code == 0 {
            Some(Origin::Igp)
        } else if code == 1 {
            Some(Origin::Egp)
        } else if code == 2 {
            Some(Origin::Incomplete)
        } else {
            None
        }
    }

    /// The byte that stands for the origin on the wire.
    pub fn to_u8(&self) -> (code: u8)
        ensures
            code == self.code(),
    {
        match self {
            Origin::Igp => 0,
            Origin::Egp => 1,
            Origin::Incomplete => 2,
        }
    }

    /// The origin that a byte stands for, if any.
    pub fn from_u8(code: u8) -> (origin: Option<Origin>)
        ensures
            origin == Origin::of_code(code),
    {
        if code == 0 {
            Some(Origin::Igp)
        } else if code == 1 {
            Some(Origin::Egp)
        } else if code == 2 {
            Some(Origin::Incomplete)
        } else {
            None
        }
    }
}

/// The AS numbers of a path on the wire: two bytes each, in network order.
pub open spec fn numbers_be(numbers: Seq<AutonomousSystemNumber>) -> Seq<u8> {
    Seq::new(
        2 * numbers.len(),
        |i: int|
            if i % 2 == 0 {
                (numbers[i / 2].0 / 256) as u8
            } else {
                (numbers[i / 2].0 % 256) as u8
            },
    )
}

/// The AS numbers that a run of byte pairs stands for.
pub open spec fn numbers_from_be(bytes: Seq<u8>) -> Seq<AutonomousSystemNumber> {
    Seq::new(
        bytes.len() / 2,
        |i: int| AutonomousSystemNumber(u16_from_be(bytes[2 * i], bytes[2 * i + 1])),
    )
}

/// Numbers read from their own wire form are the same numbers.
pub proof fn lemma_numbers_round_trip(numbers: Seq<AutonomousSystemNumber>)
    ensures
        numbers_from_be(numbers_be(numbers)) == numbers,
        numbers_be(numbers).len() == 2 * numbers.len(),
{
    let bytes = numbers_be(numbers);
    let back = numbers_from_be(bytes);
    assert forall|i: int| 0 <= i < numbers.len() implies back[i] == numbers[i] by {
        lemma_u16_round_trip(numbers[i].0);
    }
}

/// The wire form of the numbers read from an even run of bytes is that run.
pub proof fn lemma_number_bytes_round_trip(bytes: Seq<u8>)
    requires
        bytes.len() % 2 == 0,
    ensures
        numbers_be(numbers_from_be(bytes)) == bytes,
{
    let numbers = numbers_from_be(bytes);
    let back = numbers_be(numbers);
    assert forall|i: int| 0 <= i < bytes.len() implies back[i] == bytes[i] by {
        let k = i / 2;
        lemma_u16_bytes_round_trip(bytes[2 * k], bytes[2 * k + 1]);
    }
}

/// The wire form of a run of numbers with one more is the wire form of the
/// run, then the two bytes of that number.
pub proof fn lemma_numbers_be_push(
    numbers: Seq<AutonomousSystemNumber>,
    last: AutonomousSystemNumber,
)
    ensures
        numbers_be(numbers.push(last)) == numbers_be(numbers).push((last.0 / 256) as u8).push(
            (last.0 % 256) as u8,
        ),
{
    let longer = numbers_be(numbers.push(last));
    let pushed = numbers_be(numbers).push((last.0 / 256) as u8).push((last.0 % 256) as u8);
    assert forall|i: int| 0 <= i < longer.len() implies longer[i] == pushed[i] by {
    }
}

/// An AS path as a mathematical value.
pub enum AsPathView {
    AsSequence(Seq<AutonomousSystemNumber>),
    AsSet(Seq<AutonomousSystemNumber>),
}

impl AsPathView {
    /// The AS numbers of the path, in order.
    pub open spec fn numbers(self) -> Seq<AutonomousSystemNumber> {
        match self {
            AsPathView::AsSequence(numbers) => numbers,
            AsPathView::AsSet(numbers) => numbers,
        }
    }

    /// The byte that says what kind of segment the path is.
    pub open spec fn segment_type(self) -> u8 {
        match self {
            AsPathView::AsSet(_) => 1,
            AsPathView::AsSequence(_) => 2,
        }
    }

    /// The path has an encoding: its numbers can be counted in one byte.
    pub open spec fn encodable(self) -> bool {
        self.numbers().len() <= 255
    }

    /// The path on the wire: one segment, made of its kind, the count of its
    /// numbers, and the numbers.
    pub open spec fn encode(self) -> Seq<u8> {
        seq![self.segment_type(), self.numbers().len() as u8] + numbers_be(self.numbers())
    }

    /// The path after an AS has put its own number on it: a sequence gets
    /// the number in front, a set stays as it is.
    pub open spec fn add(self, as_number: AutonomousSystemNumber) -> AsPathView {
        match self {
            AsPathView::AsSequence(numbers) => AsPathView::AsSequence(
                numbers.insert(0, as_number),
            ),
            AsPathView::AsSet(numbers) => AsPathView::AsSet(numbers),
        }
    }
}

/// Reads the value of an AS path attribute: exactly one segment whose count
/// agrees with the bytes that follow it.
pub open spec fn parse_as_path(value: Seq<u8>) -> Option<AsPathView> {
    if value.len() < 2 {
        None
    } else if value.len() != 2 + 2 * value[1] {
        None
    } else if value[0] == 1 {
        Some(AsPathView::AsSet(numbers_from_be(value.skip(2))))
    } else if value[0] == 2 {
        Some(AsPathView::AsSequence(numbers_from_be(value.skip(2))))
    } else {
        None
    }
}

/// A path attribute as a mathematical value.
pub enum PathAttributeView {
    Origin(Origin),
    AsPath(AsPathView),
    NextHop(Ipv4Address),
}

impl PathAttributeView {
    /// The attribute's type code.
    pub open spec fn type_code(self) -> u8 {
        match self {
            PathAttributeView::Origin(_) => 1,
            PathAttributeView::AsPath(_) => 2,
            PathAttributeView::NextHop(_) => 3,
        }
    }

    /// The attribute's value on the wire.
    pub open spec fn value(self) -> Seq<u8> {
        match self {
            PathAttributeView::Origin(origin) => seq![origin.code()],
            PathAttributeView::AsPath(path) => path.encode(),
            PathAttributeView::NextHop(next_hop) => next_hop.spec_octets(),
        }
    }

    /// The attribute has an encoding.
    pub open spec fn encodable(self) -> bool {
        match self {
            PathAttributeView::AsPath(path) => path.encodable(),
            _ => true,
        }
    }

    /// The value is too long for a one-byte length.
    pub open spec fn extended(self) -> bool {
        self.value().len() > 255
    }

    /// The attribute's flags: well-known and transitive, with the
    /// extended-length bit set exactly when the value needs it.
    pub open spec fn flags(self) -> u8 {
        if self.extended() {
            0x50
        } else {
            0x40
        }
    }

    /// The attribute on the wire: flags, type code, length of the value in one
    /// byte or in two, and the value.
    pub open spec fn encode(self) -> Seq<u8> {
        if self.extended() {
            seq![self.flags(), self.type_code()] + u16_be(self.value().len() as u16)
                + self.value()
        } else {
            seq![self.flags(), self.type_code(), self.value().len() as u8] + self.value()
        }
    }
}

/// Reads the value of an attribute of the given type.
pub open spec fn parse_attribute_value(type_code: u8, value: Seq<u8>) -> Option<
    PathAttributeView,
> {
    if type_code == 1 {
        if value.len() == 1 {
            match Origin::of_code(value[0]) {
                Some(origin) => Some(PathAttributeView::Origin(origin)),
                None => None,
            }
        } else {
            None
        }
    } else if type_code == 2 {
        match parse_as_path(value) {
            Some(path) => Some(PathAttributeView::AsPath(path)),
            None => None,
        }
    } else if type_code == 3 {
        if value.len() == 4 {
            Some(
                PathAttributeView::NextHop(
                    Ipv4Address(u32_from_be(value[0], value[1], value[2], value[3])),
                ),
            )
        } else {
            None
        }
    } else {
        None
    }
}

/// Reads one attribute from the head of `bytes`: the attribute and the number
/// of bytes it took, or `None` where the bytes are not the canonical wire form
/// of one of the three known attributes.
pub open spec fn parse_attribute(bytes: Seq<u8>) -> Option<(PathAttributeView, nat)> {
    if bytes.len() < 3 {
        None
    } else if bytes[0] == 0x40 {
        let length = bytes[2] as int;
        if bytes.len() < 3 + length {
            None
        } else {
            match parse_attribute_value(bytes[1], bytes.subrange(3, 3 + length)) {
                Some(attribute) => Some((attribute, (3 + length) as nat)),
                None => None,
            }
        }
    } else if bytes[0] == 0x50 {
        if bytes.len() < 4 {
            None
        } else {
            let length = u16_from_be(bytes[2], bytes[3]) as int;
            if length <= 255 || bytes.len() < 4 + length {
                None
            } else {
                match parse_attribute_value(bytes[1], bytes.subrange(4, 4 + length)) {
                    Some(attribute) => Some((attribute, (4 + length) as nat)),
                    None => None,
                }
            }
        }
    } else {
        None
    }
}

/// An AS path read from the wire form of an encodable path is that path.
pub proof fn lemma_parse_encoded_as_path(path: AsPathView)
    requires
        path.encodable(),
    ensures
        parse_as_path(path.encode()) == Some(path),
        path.encode().len() == 2 + 2 * path.numbers().len(),
{
    let value = path.encode();
    lemma_numbers_round_trip(path.numbers());
    assert(value.skip(2) =~= numbers_be(path.numbers()));
}

/// The wire form of an AS path that was read is the bytes it was read from.
pub proof fn lemma_encode_parsed_as_path(value: Seq<u8>)
    requires
        parse_as_path(value) is Some,
    ensures
        parse_as_path(value)->Some_0.encodable(),
        parse_as_path(value)->Some_0.encode() == value,
{
    let tail = value.skip(2);
    lemma_number_bytes_round_trip(tail);
}

/// An attribute read from its own wire form, whatever follows it, is the same
/// attribute, and the bytes taken are those of the wire form.
pub proof fn lemma_parse_encoded_attribute(attribute: PathAttributeView, rest: Seq<u8>)
    requires
        attribute.encodable(),
    ensures
        parse_attribute(attribute.encode() + rest) == Some(
            (attribute, attribute.encode().len()),
        ),
        3 <= attribute.encode().len() <= 516,
{
    let value = attribute.value();
    let bytes = attribute.encode() + rest;
    match attribute {
        PathAttributeView::Origin(_) => {},
        PathAttributeView::AsPath(path) => {
            lemma_parse_encoded_as_path(path);
            if attribute.extended() {
                lemma_u16_round_trip(value.len() as u16);
                assert(bytes[2] == u16_be(value.len() as u16)[0]);
                assert(bytes[3] == u16_be(value.len() as u16)[1]);
                assert(bytes.subrange(4, 4 + value.len() as int) =~= value);
            } else {
                assert(bytes.subrange(3, 3 + value.len() as int) =~= value);
            }
        },
        PathAttributeView::NextHop(next_hop) => {
            lemma_u32_round_trip(next_hop.0);
        },
    }
}

/// What an attribute was read from is its wire form: an attribute that parses
/// is encodable, and encodes to exactly the bytes that were taken.
pub proof fn lemma_encode_parsed_attribute(bytes: Seq<u8>)
    requires
        parse_attribute(bytes) is Some,
    ensures
        ({
            let (attribute, taken) = parse_attribute(bytes)->Some_0;
            &&& attribute.encodable()
            &&& 3 <= taken <= bytes.len()
            &&& attribute.encode() == bytes.take(taken as int)
        }),
{
    let (attribute, taken) = parse_attribute(bytes)->Some_0;
    let header: int = if bytes[0] == 0x40 {
        3
    } else {
        4
    };
    let value = bytes.subrange(header, taken as int);
    if bytes[1] == 2 {
        lemma_encode_parsed_as_path(value);
    } else if bytes[1] == 3 {
        lemma_u32_bytes_round_trip(value[0], value[1], value[2], value[3]);
    }
    if bytes[0] == 0x50 {
        lemma_u16_bytes_round_trip(bytes[2], bytes[3]);
    }
}

/// An AS path: one segment, either an ordered sequence of AS numbers or an
/// unordered set of them.
#[derive(PartialEq, Eq, Debug, Hash)]
pub enum AsPath {
    AsSequence(Vec<AutonomousSystemNumber>),
    AsSet(Vec<AutonomousSystemNumber>),
}

impl View for AsPath {
    type V = AsPathView;

    open spec fn view(&self) -> AsPathView {
        match self {
            AsPath::AsSequence(numbers) => AsPathView::AsSequence(numbers@),
            AsPath::AsSet(numbers) => AsPathView::AsSet(numbers@),
        }
    }
}

/// A copy of a list of AS numbers.
fn copy_numbers(numbers: &Vec<AutonomousSystemNumber>) -> (copy: Vec<AutonomousSystemNumber>)
    ensures
        copy@ == numbers@,
{
    let mut copy: Vec<AutonomousSystemNumber> = Vec::new();
    let mut index: usize = 0;
    while index < numbers.len()
        invariant
            index <= numbers.len(),
            copy@ == numbers@.take(index as int),
        decreases numbers.len() - index,
    {
        copy.push(numbers[index]);
        index += 1;
    }
    copy
}

impl Clone for AsPath {
    fn clone(&self) -> (copy: Self)
        ensures
            copy@ == self@,
    {
        match self {
            AsPath::AsSequence(numbers) => AsPath::AsSequence(copy_numbers(numbers)),
            AsPath::AsSet(numbers) => AsPath::AsSet(copy_numbers(numbers)),
        }
    }
}

impl AsPath {
    /// Puts an AS number on the path: in front of a sequence; a set is left
    /// as it is.
    pub fn add(&mut self, as_number: AutonomousSystemNumber)
        ensures
            final(self)@ == old(self)@.add(as_number),
    {
        match self {
            AsPath::AsSequence(numbers) => {
                numbers.insert(0, as_number);
            },
            AsPath::AsSet(_) => {},
        }
    }

    /// Appends the path's wire form to `buffer`, or refuses a path of more
    /// than 255 numbers and leaves the buffer as it was.
    pub fn encode_into(&self, buffer: &mut BytesMut) -> (done: Result<
        (),
        ConvertBgpMessageToBytesError,
    >)
        ensures
            match done {
                Ok(_) => self@.encodable() && bytes_contents(*final(buffer)) == bytes_contents(
                    *old(buffer),
                ) + self@.encode(),
                Err(error) => !self@.encodable() && error
                    == ConvertBgpMessageToBytesError::AsPathTooLong && bytes_contents(
                    *final(buffer),
                ) == bytes_contents(*old(buffer)),
            },
    {
        let (segment_type, numbers): (u8, &Vec<AutonomousSystemNumber>) = match self {
            AsPath::AsSet(numbers) => (1, numbers),
            AsPath::AsSequence(numbers) => (2, numbers),
        };
        if numbers.len() > 255 {
            return Err(ConvertBgpMessageToBytesError::AsPathTooLong);
        }
        put_u8(buffer, segment_type);
        put_u8(buffer, numbers.len() as u8);
        let ghost head = bytes_contents(*old(buffer)) + seq![segment_type, numbers.len() as u8];
        let mut index: usize = 0;
        while index < numbers.len()
            invariant
                index <= numbers.len(),
                bytes_contents(*buffer) == head + numbers_be(numbers@.take(index as int)),
            decreases numbers.len() - index,
        {
            put_u16(buffer, numbers[index].0);
            proof {
                lemma_numbers_be_push(numbers@.take(index as int), numbers@[index as int]);
            }
            index += 1;
        }
        Ok(())
    }

    /// Reads the value of an AS path attribute.
    pub fn decode(value: &[u8]) -> (decoded: Option<AsPath>)
        ensures
            match decoded {
                Some(path) => parse_as_path(value@) == Some(path@),
                None => parse_as_path(value@) is None,
            },
    {
        if value.len() < 2 {
            return None;
        }
        let segment_type = value[0];
        let count = value[1] as usize;
        if value.len() != 2 + 2 * count {
            return None;
        }
        if segment_type != 1 && segment_type != 2 {
            return None;
        }
        let mut numbers: Vec<AutonomousSystemNumber> = Vec::new();
        let mut index: usize = 0;
        let ghost tail = value@.skip(2);
        while index < count
            invariant
                index <= count <= 255,
                value@.len() == 2 + 2 * count,
                tail == value@.skip(2),
                numbers@ == numbers_from_be(tail).take(index as int),
            decreases count - index,
        {
            let number = read_u16(value, 2 + 2 * index);
            numbers.push(AutonomousSystemNumber(number));
            index += 1;
        }
        assert(numbers@ =~= numbers_from_be(tail));
        if segment_type == 1 {
            Some(AsPath::AsSet(numbers))
        } else {
            Some(AsPath::AsSequence(numbers))
        }
    }
}

/// A path attribute of a route.
#[derive(PartialEq, Eq, Debug, Hash)]
pub enum PathAttribute {
    Origin(Origin),
    AsPath(AsPath),
    NextHop(Ipv4Address),
}

impl View for PathAttribute {
    type V = PathAttributeView;

    open spec fn view(&self) -> PathAttributeView {
        match self {
            PathAttribute::Origin(origin) => PathAttributeView::Origin(*origin),
            PathAttribute::AsPath(path) => PathAttributeView::AsPath(path@),
            PathAttribute::NextHop(next_hop) => PathAttributeView::NextHop(*next_hop),
        }
    }
}

impl Clone for PathAttribute {
    fn clone(&self) -> (copy: Self)
        ensures
            copy@ == self@,
    {
        match self {
            PathAttribute::Origin(origin) => PathAttribute::Origin(*origin),
            PathAttribute::AsPath(path) => PathAttribute::AsPath(path.clone()),
            PathAttribute::NextHop(next_hop) => PathAttribute::NextHop(*next_hop),
        }
    }
}

impl PathAttribute {
    /// Appends the attribute's wire form to `buffer`, or refuses an AS path of
    /// more than 255 numbers and leaves the buffer as it was.
    pub fn encode_into(&self, buffer: &mut BytesMut) -> (done: Result<
        (),
        ConvertBgpMessageToBytesError,
    >)
        ensures
            match done {
                Ok(_) => self@.encodable() && bytes_contents(*final(buffer)) == bytes_contents(
                    *old(buffer),
                ) + self@.encode(),
                Err(error) => !self@.encodable() && error
                    == ConvertBgpMessageToBytesError::AsPathTooLong && bytes_contents(
                    *final(buffer),
                ) == bytes_contents(*old(buffer)),
            },
    {
        match self {
            PathAttribute::Origin(origin) => {
                put_u8(buffer, 0x40);
                put_u8(buffer, 1);
                put_u8(buffer, 1);
                put_u8(buffer, origin.to_u8());
                Ok(())
            },
            PathAttribute::AsPath(path) => {
                let count = match path {
                    AsPath::AsSet(numbers) => numbers.len(),
                    AsPath::AsSequence(numbers) => numbers.len(),
                };
                if count > 255 {
                    return Err(ConvertBgpMessageToBytesError::AsPathTooLong);
                }
                let length: usize = 2 + 2 * count;
                if length > 255 {
                    put_u8(buffer, 0x50);
                    put_u8(buffer, 2);
                    put_u16(buffer, length as u16);
                } else {
                    put_u8(buffer, 0x40);
                    put_u8(buffer, 2);
                    put_u8(buffer, length as u8);
                }
                path.encode_into(buffer)
            },
            PathAttribute::NextHop(next_hop) => {
                put_u8(buffer, 0x40);
                put_u8(buffer, 3);
                put_u8(buffer, 4);
                let octets = next_hop.octets();
                put_slice(buffer, octets.as_slice());
                Ok(())
            },
        }
    }

    /// Reads one attribute from the head of `bytes`, and says how many bytes
    /// it took.
    pub fn decode(bytes: &[u8]) -> (decoded: Option<(PathAttribute, usize)>)
        ensures
            match decoded {
                Some((attribute, taken)) => parse_attribute(bytes@) == Some(
                    (attribute@, taken as nat),
                ),
                None => parse_attribute(bytes@) is None,
            },
    {
        if bytes.len() < 3 {
            return None;
        }
        let flags = bytes[0];
        let type_code = bytes[1];
        let header: usize;
        let length: usize;
        if flags == 0x40 {
            header = 3;
            length = bytes[2] as usize;
        } else if flags == 0x50 {
            if bytes.len() < 4 {
                return None;
            }
            header = 4;
            length = read_u16(bytes, 2) as usize;
            if length <= 255 {
                return None;
            }
        } else {
            return None;
        }
        if bytes.len() - header < length {
            return None;
        }
        let value = slice_subrange(bytes, header, header + length);
        let attribute = if type_code == 1 {
            if length != 1 {
                return None;
            }
            match Origin::from_u8(value[0]) {
                Some(origin) => PathAttribute::Origin(origin),
                None => {
                    return None;
                },
            }
        } else if type_code == 2 {
            match AsPath::decode(value) {
                Some(path) => PathAttribute::AsPath(path),
                None => {
                    return None;
                },
            }
        } else if type_code == 3 {
            if length != 4 {
                return None;
            }
            PathAttribute::NextHop(Ipv4Address(read_u32(value, 0)))
        } else {
            return None;
        };
        Some((attribute, header + length))
    }
}

/// The views of a run of attributes, in order.
pub open spec fn attribute_views(attributes: Seq<PathAttribute>) -> Seq<PathAttributeView> {
    attributes.map_values(|attribute: PathAttribute| attribute@)
}

/// A run of attributes on the wire: each in its wire form, one after the
/// other.
pub open spec fn encode_attributes(attributes: Seq<PathAttributeView>) -> Seq<u8>
    decreases attributes.len(),
{
    if attributes.len() == 0 {
        Seq::empty()
    } else {
        attributes[0].encode() + encode_attributes(attributes.drop_first())
    }
}

/// Reads attributes until the bytes are used up: the attributes in order, or
/// `None` where one of them does not parse.
pub open spec fn parse_attributes(bytes: Seq<u8>) -> Option<Seq<PathAttributeView>>
    decreases bytes.len(),
{
    if bytes.len() == 0 {
        Some(Seq::empty())
    } else {
        match parse_attribute(bytes) {
            Some((attribute, taken)) => if 1 <= taken <= bytes.len() {
                match parse_attributes(bytes.skip(taken as int)) {
                    Some(rest) => Some(seq![attribute] + rest),
                    None => None,
                }
            } else {
                None
            },
            None => None,
        }
    }
}

/// Every attribute of the run has an encoding.
pub open spec fn attributes_encodable(attributes: Seq<PathAttributeView>) -> bool {
    forall|i: int| 0 <= i < attributes.len() ==> (#[trigger] attributes[i]).encodable()
}

/// The wire form of two runs joined is the two wire forms joined.
pub proof fn lemma_encode_attributes_concat(
    first: Seq<PathAttributeView>,
    second: Seq<PathAttributeView>,
)
    ensures
        encode_attributes(first + second) == encode_attributes(first) + encode_attributes(
            second,
        ),
    decreases first.len(),
{
    if first.len() == 0 {
    } else {
        lemma_encode_attributes_concat(first.drop_first(), second);
        assert((first + second).drop_first() =~= first.drop_first() + second);
    }
}

/// The wire form of a run with one more attribute is the wire form of the
/// run, then that of the attribute.
pub proof fn lemma_encode_attributes_push(
    attributes: Seq<PathAttributeView>,
    last: PathAttributeView,
)
    ensures
        encode_attributes(attributes.push(last)) == encode_attributes(attributes)
            + last.encode(),
{
    lemma_encode_attributes_concat(attributes, seq![last]);
    assert(attributes.push(last) =~= attributes + seq![last]);
    assert(encode_attributes(seq![last].drop_first()) =~= Seq::<u8>::empty());
}

/// A run of encodable attributes read from its own wire form is the same run.
pub proof fn lemma_parse_encoded_attributes(attributes: Seq<PathAttributeView>)
    requires
        attributes_encodable(attributes),
    ensures
        parse_attributes(encode_attributes(attributes)) == Some(attributes),
    decreases attributes.len(),
{
    if attributes.len() == 0 {
    } else {
        let head = attributes[0];
        let tail = attributes.drop_first();
        assert forall|i: int| 0 <= i < tail.len() implies (#[trigger] tail[i]).encodable() by {
        }
        let bytes = encode_attributes(attributes);
        lemma_parse_encoded_attribute(head, encode_attributes(tail));
        lemma_parse_encoded_attributes(tail);
        let taken = head.encode().len() as int;
        assert(bytes.skip(taken) =~= encode_attributes(tail));
    }
}

/// A run of attributes that was read is encodable, and its wire form is the
/// bytes it was read from.
pub proof fn lemma_encode_parsed_attributes(bytes: Seq<u8>)
    requires
        parse_attributes(bytes) is Some,
    ensures
        ({
            let attributes = parse_attributes(bytes)->Some_0;
            &&& attributes_encodable(attributes)
            &&& encode_attributes(attributes) == bytes
        }),
    decreases bytes.len(),
{
    if bytes.len() == 0 {
    } else {
        let (attribute, taken) = parse_attribute(bytes)->Some_0;
        let rest = parse_attributes(bytes.skip(taken as int))->Some_0;
        let attributes = seq![attribute] + rest;
        lemma_encode_parsed_attribute(bytes);
        lemma_encode_parsed_attributes(bytes.skip(taken as int));
        assert(attributes.drop_first() =~= rest);
        assert forall|i: int| 0 <= i < attributes.len() implies (
        #[trigger] attributes[i]).encodable() by {
        }
    }
}

/// A copy of a list of attributes.
pub fn copy_attributes(attributes: &Vec<PathAttribute>) -> (copy: Vec<PathAttribute>)
    ensures
        attribute_views(copy@) == attribute_views(attributes@),
{
    let mut copy: Vec<PathAttribute> = Vec::new();
    let mut index: usize = 0;
    while index < attributes.len()
        invariant
            index <= attributes.len(),
            attribute_views(copy@) == attribute_views(attributes@).take(index as int),
        decreases attributes.len() - index,
    {
        let attribute = attributes[index].clone();
        let ghost before = attribute_views(copy@);
        copy.push(attribute);
        assert(attribute_views(copy@) =~= before.push(attribute@));
        index += 1;
    }
    copy
}

/// Appends the wire form of each attribute in turn to `buffer`, or refuses
/// the run where one of its AS paths holds more than 255 numbers.
pub fn encode_attributes_into(attributes: &Vec<PathAttribute>, buffer: &mut BytesMut) -> (done:
    Result<(), ConvertBgpMessageToBytesError>)
    ensures
        match done {
            Ok(_) => attributes_encodable(attribute_views(attributes@)) && bytes_contents(
                *final(buffer),
            ) == bytes_contents(*old(buffer)) + encode_attributes(attribute_views(attributes@)),
            Err(error) => !attributes_encodable(attribute_views(attributes@)) && error
                == ConvertBgpMessageToBytesError::AsPathTooLong,
        },
{
    let ghost views = attribute_views(attributes@);
    let mut index: usize = 0;
    while index < attributes.len()
        invariant
            index <= attributes.len(),
            views == attribute_views(attributes@),
            forall|i: int| 0 <= i < index ==> (#[trigger] views[i]).encodable(),
            bytes_contents(*buffer) == bytes_contents(*old(buffer)) + encode_attributes(
                views.take(index as int),
            ),
        decreases attributes.len() - index,
    {
        match attributes[index].encode_into(buffer) {
            Ok(_) => {},
            Err(error) => {
                return Err(error);
            },
        }
        proof {
            lemma_encode_attributes_push(views.take(index as int), views[index as int]);
            assert(views.take(index as int).push(views[index as int]) =~= views.take(
                index as int + 1,
            ));
        }
        index += 1;
    }
    assert(views.take(index as int) =~= views);
    Ok(())
}

/// Reads attributes until `bytes` is used up.
pub fn decode_attributes(bytes: &[u8]) -> (decoded: Option<Vec<PathAttribute>>)
    ensures
        match decoded {
            Some(attributes) => parse_attributes(bytes@) == Some(attribute_views(attributes@)),
            None => parse_attributes(bytes@) is None,
        },
{
    let mut attributes: Vec<PathAttribute> = Vec::new();
    let mut position: usize = 0;
    assert(bytes@.skip(0) =~= bytes@);
    while position < bytes.len()
        invariant
            position <= bytes.len(),
            parse_attributes(bytes@) == match parse_attributes(bytes@.skip(position as int)) {
                Some(rest) => Some(attribute_views(attributes@) + rest),
                None => None,
            },
        decreases bytes.len() - position,
    {
        let tail = slice_subrange(bytes, position, bytes.len());
        match PathAttribute::decode(tail) {
            None => {
                return None;
            },
            Some((attribute, taken)) => {
                proof {
                    lemma_encode_parsed_attribute(tail@);
                    assert(tail@.skip(taken as int) =~= bytes@.skip(position + taken));
                    let before = attribute_views(attributes@);
                    assert forall|rest: Seq<PathAttributeView>|
                        before + (seq![attribute@] + rest) == #[trigger] (before.push(
                            attribute@,
                        ) + rest) by {
                    }
                }
                attributes.push(attribute);
                position += taken;
            },
        }
    }
    Some(attributes)
}

} // verus!
