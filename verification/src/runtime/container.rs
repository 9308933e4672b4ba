//! Containers: the sole composite node, and the wire decoding that builds
//! one from an array of elements whose last entry is packed metadata.

use crate::runtime::obj_name;
use crate::runtime::RuntimeObject;
use vstd::prelude::*;
use vstd::string::StrSliceExecFns;

verus! {

/// The one composite, addressable node: ordered children, a name table for
/// named sub-elements, an optional own name, and three counting flags.
#[derive(Debug, Clone)]
pub struct Container {
    pub content: Vec<RuntimeObject>,
    pub named_subelements: Vec<(String, RuntimeObject)>,
    pub name: Option<String>,
    pub visits_should_be_counted: bool,
    pub turn_index_should_be_counted: bool,
    pub count_at_start_only: bool,
}

/// The packed flag byte: visits counted is `0x1`, turn index counted `0x2`,
/// count-at-start-only `0x4`; start-only alone says nothing is counted, so
/// it packs as `0`.
pub open spec fn pack_flags(visits: bool, turns: bool, start_only: bool) -> u8 {
    let f = (if visits {
        1u8
    } else {
        0u8
    }) | (if turns {
        2u8
    } else {
        0u8
    }) | (if start_only {
        4u8
    } else {
        0u8
    });
    if f == 4 {
        0
    } else {
        f
    }
}

pub open spec fn flag_visits(f: u8) -> bool {
    f & 1 != 0
}

pub open spec fn flag_turns(f: u8) -> bool {
    f & 2 != 0
}

pub open spec fn flag_start_only(f: u8) -> bool {
    f & 4 != 0
}

/// Position of the first child whose addressable name is `nm`, or `-1`.
pub open spec fn first_named(content: Seq<RuntimeObject>, nm: Seq<char>) -> int
    decreases content.len(),
{
    if content.len() == 0 {
        -1
    } else if obj_name(content[0]) == Some(nm) {
        0
    } else {
        let r = first_named(content.drop_first(), nm);
        if r == -1 {
            -1
        } else {
            r + 1
        }
    }
}

pub proof fn lemma_first_named_none(content: Seq<RuntimeObject>, nm: Seq<char>)
    requires
        forall|j: int| 0 <= j < content.len() ==> obj_name(#[trigger] content[j]) != Some(nm),
    ensures
        first_named(content, nm) == -1,
    decreases content.len(),
{
    if content.len() > 0 {
        lemma_first_named_none(content.drop_first(), nm);
    }
}

proof fn lemma_first_named_at(content: Seq<RuntimeObject>, nm: Seq<char>, i: int)
    requires
        0 <= i < content.len(),
        obj_name(content[i]) == Some(nm),
        forall|j: int| 0 <= j < i ==> obj_name(#[trigger] content[j]) != Some(nm),
    ensures
        first_named(content, nm) == i,
    decreases content.len(),
{
    if i > 0 {
        lemma_first_named_at(content.drop_first(), nm, i - 1);
    }
}

/// Compare two string slices character by character.
fn str_eq(a: &str, b: &str) -> (r: bool)
    ensures
        r == (a@ == b@),
{
    let na = a.unicode_len();
    let nb = b.unicode_len();
    if na != nb {
        return false;
    }
    let mut i: usize = 0;
    while i < na
        invariant
            i <= na,
            na == a@.len(),
            na == b@.len(),
            forall|j: int| 0 <= j < i ==> a@[j] == b@[j],
        decreases na - i,
    {
        if a.get_char(i) != b.get_char(i) {
            return false;
        }
        i = i + 1;
    }
    proof {
        assert(a@ =~= b@);
    }
    true
}

impl Container {
    /// An empty, unnamed container with default flags.
    pub fn new() -> (r: Container)
        ensures
            r.content@.len() == 0,
            r.named_subelements@.len() == 0,
            r.name is None,
            !r.visits_should_be_counted,
            !r.turn_index_should_be_counted,
            !r.count_at_start_only,
    {
        Container {
            content: Vec::new(),
            named_subelements: Vec::new(),
            name: None,
            visits_should_be_counted: false,
            turn_index_should_be_counted: false,
            count_at_start_only: false,
        }
    }

    /// Pack the three counting flags into the wire byte.
    pub fn count_flags(&self) -> (r: u8)
        ensures
            r == pack_flags(
                self.visits_should_be_counted,
                self.turn_index_should_be_counted,
                self.count_at_start_only,
            ),
    {
        let mut flags: u8 = 0;
        if self.visits_should_be_counted {
            flags = flags | 0x1;
        }
        if self.turn_index_should_be_counted {
            flags = flags | 0x2;
        }
        if self.count_at_start_only {
            flags = flags | 0x4;
        }
        proof {
            lemma_flag_bytes();
        }
        if flags == 0x4 {
            0
        } else {
            flags
        }
    }

    /// Unpack the wire byte into the three counting flags.
    pub fn set_count_flags(&mut self, count_flags: u8)
        ensures
            final(self).visits_should_be_counted == flag_visits(count_flags),
            final(self).turn_index_should_be_counted == flag_turns(count_flags),
            final(self).count_at_start_only == flag_start_only(count_flags),
            final(self).content == old(self).content,
            final(self).named_subelements == old(self).named_subelements,
            final(self).name == old(self).name,
    {
        self.visits_should_be_counted = count_flags & 0x1 > 0;
        self.turn_index_should_be_counted = count_flags & 0x2 > 0;
        self.count_at_start_only = count_flags & 0x4 > 0;
    }

    /// Append one child.
    pub fn add_child(&mut self, obj: RuntimeObject)
        ensures
            final(self).content@ == old(self).content@.push(obj),
            final(self).named_subelements == old(self).named_subelements,
            final(self).name == old(self).name,
            final(self).visits_should_be_counted == old(self).visits_should_be_counted,
            final(self).turn_index_should_be_counted == old(self).turn_index_should_be_counted,
            final(self).count_at_start_only == old(self).count_at_start_only,
    {
        self.content.push(obj);
    }

    /// Put `objects` in front of the existing children, keeping both orders.
    pub fn prepend(&mut self, objects: Vec<RuntimeObject>)
        ensures
            final(self).content@ == objects@ + old(self).content@,
            final(self).named_subelements == old(self).named_subelements,
            final(self).name == old(self).name,
            final(self).visits_should_be_counted == old(self).visits_should_be_counted,
            final(self).turn_index_should_be_counted == old(self).turn_index_should_be_counted,
            final(self).count_at_start_only == old(self).count_at_start_only,
    {
        let mut objects = objects;
        objects.append(&mut self.content);
        self.content = objects;
    }

    /// The first child, in content order, whose addressable name is `name`.
    pub fn search_by_name(&self, name: &str) -> (r: Option<&RuntimeObject>)
        ensures
            r is Some <==> first_named(self.content@, name@) >= 0,
            r matches Some(o) ==> {
                let k = first_named(self.content@, name@);
                &&& 0 <= k < self.content@.len()
                &&& *o == self.content@[k]
            },
    {
        let n = self.content.len();
        let mut i: usize = 0;
        while i < n
            invariant
                i <= n,
                n == self.content@.len(),
                forall|j: int|
                    0 <= j < i ==> obj_name(#[trigger] self.content@[j]) != Some(name@),
            decreases n - i,
        {
            let obj = &self.content[i];
            match obj.name() {
                Some(other_name) => {
                    if str_eq(name, other_name) {
                        proof {
                            lemma_first_named_at(self.content@, name@, i as int);
                        }
                        return Some(obj);
                    }
                },
                None => {},
            }
            i = i + 1;
        }
        proof {
            lemma_first_named_none(self.content@, name@);
        }
        None
    }
}

/// Constant facts about the flag bytes.
proof fn lemma_flag_bytes()
    ensures
        ((0u8 | 0u8) == 0u8) && ((0u8 | 4u8) == 4u8) && ((1u8 | 0u8) == 1u8) && ((1u8 | 4u8) == 5u8) && ((2u8 | 0u8) == 2u8) && ((2u8 | 4u8) == 6u8) && ((3u8 | 0u8) == 3u8) && ((3u8 | 4u8) == 7u8) && ((0u8 | 1u8) == 1u8) && ((0u8 | 2u8) == 2u8) && ((2u8 | 1u8) == 3u8) && ((1u8 | 1u8) == 1u8) && ((1u8 | 2u8) == 3u8) && ((3u8 | 1u8) == 3u8) && ((0u8 & 1u8) == 0) && ((0u8 & 2u8) == 0) && ((0u8 & 4u8) == 0) && ((1u8 & 1u8) != 0) && ((1u8 & 2u8) == 0) && ((1u8 & 4u8) == 0) && ((2u8 & 1u8) == 0) && ((2u8 & 2u8) != 0) && ((2u8 & 4u8) == 0) && ((3u8 & 1u8) != 0) && ((3u8 & 2u8) != 0) && ((3u8 & 4u8) == 0) && ((4u8 & 1u8) == 0) && ((4u8 & 2u8) == 0) && ((4u8 & 4u8) != 0) && ((5u8 & 1u8) != 0) && ((5u8 & 2u8) == 0) && ((5u8 & 4u8) != 0) && ((6u8 & 1u8) == 0) && ((6u8 & 2u8) != 0) && ((6u8 & 4u8) != 0) && ((7u8 & 1u8) != 0) && ((7u8 & 2u8) != 0) && ((7u8 & 4u8) != 0),
{
    assert(((0u8 | 0u8) == 0u8) && ((0u8 | 4u8) == 4u8) && ((1u8 | 0u8) == 1u8) && ((1u8 | 4u8) == 5u8) && ((2u8 | 0u8) == 2u8) && ((2u8 | 4u8) == 6u8) && ((3u8 | 0u8) == 3u8) && ((3u8 | 4u8) == 7u8) && ((0u8 | 1u8) == 1u8) && ((0u8 | 2u8) == 2u8) && ((2u8 | 1u8) == 3u8) && ((1u8 | 1u8) == 1u8) && ((1u8 | 2u8) == 3u8) && ((3u8 | 1u8) == 3u8) && ((0u8 & 1u8) == 0) && ((0u8 & 2u8) == 0) && ((0u8 & 4u8) == 0) && ((1u8 & 1u8) != 0) && ((1u8 & 2u8) == 0) && ((1u8 & 4u8) == 0) && ((2u8 & 1u8) == 0) && ((2u8 & 2u8) != 0) && ((2u8 & 4u8) == 0) && ((3u8 & 1u8) != 0) && ((3u8 & 2u8) != 0) && ((3u8 & 4u8) == 0) && ((4u8 & 1u8) == 0) && ((4u8 & 2u8) == 0) && ((4u8 & 4u8) != 0) && ((5u8 & 1u8) != 0) && ((5u8 & 2u8) == 0) && ((5u8 & 4u8) != 0) && ((6u8 & 1u8) == 0) && ((6u8 & 2u8) != 0) && ((6u8 & 4u8) != 0) && ((7u8 & 1u8) != 0) && ((7u8 & 2u8) != 0) && ((7u8 & 4u8) != 0)) by (bit_vector);
}

/// Packing law: the flag byte and the three booleans correspond exactly, for
/// every combination except count-at-start-only alone, which the wire format
/// identifies with "nothing counted" and packs as `0`.
pub proof fn lemma_flags_round_trip(visits: bool, turns: bool, start_only: bool)
    requires
        !(start_only && !visits && !turns),
    ensures
        flag_visits(pack_flags(visits, turns, start_only)) == visits,
        flag_turns(pack_flags(visits, turns, start_only)) == turns,
        flag_start_only(pack_flags(visits, turns, start_only)) == start_only,
{
    lemma_flag_bytes();
}

/// The one collapsed combination: count-at-start-only alone packs as `0`.
pub proof fn lemma_flags_start_only_packs_as_zero()
    ensures
        pack_flags(false, false, true) == 0,
{
    lemma_flag_bytes();
}

/// One element of the wire array a container is decoded from: an ordinary
/// content node, or the special final entry (`null`, or a metadata object).
#[derive(Debug, Clone)]
pub enum ContainerElement {
    RuntimeObject(RuntimeObject),
    SpecialFinal(Option<ContainerData>),
}

/// The metadata object a container's wire array may end with: an optional
/// name, a flag byte, and the named sub-elements.
#[derive(Debug, Clone)]
pub struct ContainerData {
    pub name: Option<String>,
    pub flags: u8,
    pub named_subelements: Vec<(String, RuntimeObject)>,
}

/// The distinct ways decoding a container's wire array fails.
#[derive(Debug, Clone)]
pub enum ContainerError {
    /// The final element is an ordinary node where metadata was expected.
    UnexpectedRuntimeObject(RuntimeObject),
    /// The array is empty.
    NoElements,
    /// A non-terminal element is a bare null.
    UnexpectedNull,
    /// A non-terminal element is a metadata object.
    UnexpectedMapObject(ContainerData),
}

/// Position of the first non-terminal element that is not an ordinary node,
/// or `-1`.
pub open spec fn first_special(pre: Seq<ContainerElement>) -> int
    decreases pre.len(),
{
    if pre.len() == 0 {
        -1
    } else if !(pre[0] is RuntimeObject) {
        0
    } else {
        let r = first_special(pre.drop_first(), );
        if r == -1 {
            -1
        } else {
            r + 1
        }
    }
}

proof fn lemma_first_special_none(pre: Seq<ContainerElement>)
    requires
        forall|j: int| 0 <= j < pre.len() ==> (#[trigger] pre[j]) is RuntimeObject,
    ensures
        first_special(pre) == -1,
    decreases pre.len(),
{
    if pre.len() > 0 {
        lemma_first_special_none(pre.drop_first());
    }
}

proof fn lemma_first_special_at(pre: Seq<ContainerElement>, i: int)
    requires
        0 <= i < pre.len(),
        !(pre[i] is RuntimeObject),
        forall|j: int| 0 <= j < i ==> (#[trigger] pre[j]) is RuntimeObject,
    ensures
        first_special(pre) == i,
    decreases pre.len(),
{
    if i > 0 {
        lemma_first_special_at(pre.drop_first(), i - 1);
    }
}

/// What a successfully decoded container holds, given the wire elements.
pub open spec fn decoded_from(c: Container, elements: Seq<ContainerElement>) -> bool {
    let pre = elements.drop_last();
    &&& c.content@.len() == pre.len()
    &&& forall|i: int|
        0 <= i < pre.len() ==> ((#[trigger] pre[i]) matches ContainerElement::RuntimeObject(o)
            && c.content@[i] == o)
    &&& match elements.last() {
        ContainerElement::SpecialFinal(None) => {
            &&& c.name is None
            &&& !c.visits_should_be_counted
            &&& !c.turn_index_should_be_counted
            &&& !c.count_at_start_only
            &&& c.named_subelements@.len() == 0
        },
        ContainerElement::SpecialFinal(Some(d)) => {
            &&& c.name == d.name
            &&& c.visits_should_be_counted == flag_visits(d.flags)
            &&& c.turn_index_should_be_counted == flag_turns(d.flags)
            &&& c.count_at_start_only == flag_start_only(d.flags)
            &&& c.named_subelements == d.named_subelements
        },
        _ => false,
    }
}

impl Container {
    /// Decode the wire array: the last element must be `null` or a metadata
    /// object, and every element before it an ordinary content node.  Each
    /// way the array can be malformed is reported as its own error.
    pub fn from_elements(elements: Vec<ContainerElement>) -> (r: Result<
        Container,
        ContainerError,
    >)
        ensures
            r is Ok <==> (elements@.len() > 0 && elements@.last() is SpecialFinal
                && first_special(elements@.drop_last()) == -1),
            r matches Ok(c) ==> decoded_from(c, elements@),
            elements@.len() == 0 ==> (r matches Err(e) && e is NoElements),
            elements@.len() > 0 ==> (match elements@.last() {
                ContainerElement::RuntimeObject(o) => r matches Err(e) && e
                    matches ContainerError::UnexpectedRuntimeObject(o2) && o2 == o,
                _ => true,
            }),
            (elements@.len() > 0 && elements@.last() is SpecialFinal && first_special(
                elements@.drop_last(),
            ) >= 0) ==> (r matches Err(e) && {
                let k = first_special(elements@.drop_last());
                match elements@.drop_last()[k] {
                    ContainerElement::SpecialFinal(None) => e is UnexpectedNull,
                    ContainerElement::SpecialFinal(Some(d)) => e
                        matches ContainerError::UnexpectedMapObject(d2) && d2 == d,
                    _ => false,
                }
            }),
    {
        let ghost all = elements@;
        let mut elems = elements;
        let data = match elems.pop() {
            Some(ContainerElement::SpecialFinal(d)) => d,
            Some(ContainerElement::RuntimeObject(o)) => {
                return Err(ContainerError::UnexpectedRuntimeObject(o));
            },
            None => {
                return Err(ContainerError::NoElements);
            },
        };
        proof {
            assert(all.len() > 0);
            assert(all.last() is SpecialFinal);
        }
        let ghost pre = all.drop_last();
        proof {
            assert(pre =~= all.subrange(0, all.len() - 1));
        }
        let mut content: Vec<RuntimeObject> = Vec::new();
        while elems.len() > 0
            invariant
                all == elements@,
                all.len() > 0,
                all.last() is SpecialFinal,
                pre == all.drop_last(),
                content@.len() + elems@.len() == pre.len(),
                elems@ == pre.subrange(content@.len() as int, pre.len() as int),
                forall|j: int|
                    0 <= j < content@.len() ==> ((#[trigger] pre[j])
                        matches ContainerElement::RuntimeObject(o) && content@[j] == o),
            decreases elems@.len(),
    {
            let ghost k = content@.len() as int;
            let e = elems.remove(0);
            proof {
                assert(e == pre[k]);
            }
            match e {
                ContainerElement::RuntimeObject(o) => {
                    content.push(o);
                    proof {
                        assert(elems@ =~= pre.subrange(
                            content@.len() as int,
                            pre.len() as int,
                        ));
                    }
                },
                ContainerElement::SpecialFinal(None) => {
                    proof {
                        lemma_first_special_at(pre, k);
                    }
                    return Err(ContainerError::UnexpectedNull);
                },
                ContainerElement::SpecialFinal(Some(d)) => {
                    proof {
                        lemma_first_special_at(pre, k);
                    }
                    return Err(ContainerError::UnexpectedMapObject(d));
                },
            }
        }
        proof {
            lemma_first_special_none(pre);
        }
        match data {
            None => Ok(
                Container {
                    content,
                    named_subelements: Vec::new(),
                    name: None,
                    visits_should_be_counted: false,
                    turn_index_should_be_counted: false,
                    count_at_start_only: false,
                },
            ),
            Some(d) => {
                let ContainerData { name, flags, named_subelements } = d;
                Ok(
                    Container {
                        content,
                        named_subelements,
                        name,
                        visits_should_be_counted: flags & 0x1 > 0,
                        turn_index_should_be_counted: flags & 0x2 > 0,
                        count_at_start_only: flags & 0x4 > 0,
                    },
                )
            },
        }
    }
}

} // verus!
