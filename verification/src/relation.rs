//! The relation decoder: one forward field scan over a relation message,
//! plus the lock-step member resolver joining the role, member-id and
//! member-type columns.

use crate::delta::{delta_decode_all, delta_outputs};
use crate::info::{Info, InfoModel, info_of};
use crate::primitive_block::{strings_view, BlockModel, PrimitiveBlock};
use crate::tags::{pairs_view, tags_resolved, TagsIter};
use crate::wire::{
    cast_i64_u64, fields_of, packed_i32s_of, packed_i64s_of, packed_u32s_of, read_fields,
    read_packed_i32s, read_packed_u32s, twos_u64, wire_fields_view, WireVal, WireValue,
};
use vstd::prelude::*;

verus! {

/// What a relation member can refer to.
#[derive(Debug, PartialEq, Eq, PartialOrd, Ord, Clone, Structural)]
pub enum RelationMemberType {
    Node,
    Way,
    Relation,
}

/// One resolved member: its role text, its absolute member id, and what kind
/// of entity it names.
pub type MemberModel = (Seq<char>, u64, RelationMemberType);

/// The members resolved from the three parallel columns, in lock step: roles
/// against the string table, member ids already delta-decoded, member-type
/// codes zero to two. The first exhausted column, out-of-range role index or
/// unknown type code stops resolution of everything that follows.
pub open spec fn members_resolved(
    roles: Seq<i32>,
    memids: Seq<i64>,
    types: Seq<u32>,
    st: Seq<Seq<char>>,
) -> Seq<MemberModel>
    decreases roles.len(),
{
    if roles.len() == 0 || memids.len() == 0 || types.len() == 0 {
        Seq::empty()
    } else {
        let role_sid = roles[0];
        if 0 <= role_sid && role_sid < st.len() {
            let t = types[0];
            if t == 0 || t == 1 || t == 2 {
                let mt = if t == 0 {
                    RelationMemberType::Node
                } else if t == 1 {
                    RelationMemberType::Way
                } else {
                    RelationMemberType::Relation
                };
                seq![(st[role_sid as int], twos_u64(memids[0]), mt)] + members_resolved(
                    roles.skip(1),
                    memids.skip(1),
                    types.skip(1),
                    st,
                )
            } else {
                Seq::empty()
            }
        } else {
            Seq::empty()
        }
    }
}

/// View of a list of owned members as member models.
pub open spec fn members_view(s: Seq<(String, u64, RelationMemberType)>) -> Seq<MemberModel> {
    s.map_values(|m: (String, u64, RelationMemberType)| (m.0@, m.1, m.2))
}

/// Walks the three member columns of one relation in lock step, resolving
/// each member against the block's string table.
pub struct RelationMembersIter<'a> {
    roles: Vec<i32>,
    ri: usize,
    memids: Vec<i64>,
    mi: usize,
    types: Vec<u32>,
    ti: usize,
    stringtable: &'a Vec<String>,
}

impl<'a> RelationMembersIter<'a> {
    pub closed spec fn wf(&self) -> bool {
        self.ri <= self.roles@.len() && self.mi <= self.memids@.len() && self.ti
            <= self.types@.len()
    }

    /// The role indexes not yet consumed.
    pub closed spec fn roles_rest(&self) -> Seq<i32> {
        self.roles@.skip(self.ri as int)
    }

    /// The absolute member ids not yet consumed.
    pub closed spec fn memids_rest(&self) -> Seq<i64> {
        self.memids@.skip(self.mi as int)
    }

    /// The member-type codes not yet consumed.
    pub closed spec fn types_rest(&self) -> Seq<u32> {
        self.types@.skip(self.ti as int)
    }

    /// The string table this walk resolves against.
    pub closed spec fn st_view(&self) -> Seq<Seq<char>> {
        strings_view(self.stringtable@)
    }

    /// The members this walk can still resolve from its current position.
    pub open spec fn remaining(&self) -> Seq<MemberModel> {
        members_resolved(self.roles_rest(), self.memids_rest(), self.types_rest(), self.st_view())
    }

    /// An empty walk over the given string table; the columns come later.
    pub fn new(stringtable: &'a Vec<String>) -> (r: Self)
        ensures
            r.wf(),
            r.roles_rest() == Seq::<i32>::empty(),
            r.memids_rest() == Seq::<i64>::empty(),
            r.types_rest() == Seq::<u32>::empty(),
            r.st_view() == strings_view(stringtable@),
    {
        RelationMembersIter {
            roles: Vec::new(),
            ri: 0,
            memids: Vec::new(),
            mi: 0,
            types: Vec::new(),
            ti: 0,
            stringtable,
        }
    }

    /// Install the packed role-index column.
    pub fn set_roles(&mut self, data: &[u8])
        requires
            old(self).wf(),
        ensures
            final(self).wf(),
            final(self).roles_rest() == packed_i32s_of(data@),
            final(self).memids_rest() == old(self).memids_rest(),
            final(self).types_rest() == old(self).types_rest(),
            final(self).st_view() == old(self).st_view(),
    {
        self.roles = read_packed_i32s(data);
        self.ri = 0;
        proof {
            assert(self.roles@.skip(0) =~= self.roles@);
        }
    }

    /// Install the member-id column, delta-decoding it to absolute ids.
    pub fn set_memids(&mut self, data: &[u8])
        requires
            old(self).wf(),
        ensures
            final(self).wf(),
            final(self).memids_rest() == delta_outputs(packed_i64s_of(data@), 0),
            final(self).roles_rest() == old(self).roles_rest(),
            final(self).types_rest() == old(self).types_rest(),
            final(self).st_view() == old(self).st_view(),
    {
        self.memids = delta_decode_all(data);
        self.mi = 0;
        proof {
            assert(self.memids@.skip(0) =~= self.memids@);
        }
    }

    /// Install the packed member-type column.
    pub fn set_types(&mut self, data: &[u8])
        requires
            old(self).wf(),
        ensures
            final(self).wf(),
            final(self).types_rest() == packed_u32s_of(data@),
            final(self).roles_rest() == old(self).roles_rest(),
            final(self).memids_rest() == old(self).memids_rest(),
            final(self).st_view() == old(self).st_view(),
    {
        self.types = read_packed_u32s(data);
        self.ti = 0;
        proof {
            assert(self.types@.skip(0) =~= self.types@);
        }
    }

    /// Resolve the next member. `None` the first time a column runs out, a
    /// role index leaves the string table, or a type code is unknown.
    pub fn next(&mut self) -> (r: Option<(String, u64, RelationMemberType)>)
        requires
            old(self).wf(),
        ensures
            final(self).wf(),
            match r {
                Some(m) => {
                    &&& old(self).remaining().len() > 0
                    &&& (m.0@, m.1, m.2) == old(self).remaining()[0]
                    &&& final(self).remaining() == old(self).remaining().skip(1)
                },
                None => old(self).remaining().len() == 0,
            },
    {
        proof {
            if self.ri < self.roles@.len() {
                let s = self.roles@.skip(self.ri as int);
                assert(s[0] == self.roles@[self.ri as int]);
                assert(s.skip(1) =~= self.roles@.skip(self.ri as int + 1));
            }
            if self.mi < self.memids@.len() {
                let s = self.memids@.skip(self.mi as int);
                assert(s[0] == self.memids@[self.mi as int]);
                assert(s.skip(1) =~= self.memids@.skip(self.mi as int + 1));
            }
            if self.ti < self.types@.len() {
                let s = self.types@.skip(self.ti as int);
                assert(s[0] == self.types@[self.ti as int]);
                assert(s.skip(1) =~= self.types@.skip(self.ti as int + 1));
            }
        }
        if self.ri >= self.roles.len() {
            return None;
        }
        let role_sid = self.roles[self.ri];
        self.ri = self.ri + 1;
        if role_sid < 0 || role_sid as usize >= self.stringtable.len() {
            return None;
        }
        let role = self.stringtable[role_sid as usize].clone();
        if self.mi >= self.memids.len() {
            return None;
        }
        let memid = self.memids[self.mi];
        self.mi = self.mi + 1;
        if self.ti >= self.types.len() {
            return None;
        }
        let t = self.types[self.ti];
        self.ti = self.ti + 1;
        let memtype = if t == 0 {
            RelationMemberType::Node
        } else if t == 1 {
            RelationMemberType::Way
        } else if t == 2 {
            RelationMemberType::Relation
        } else {
            return None;
        };
        Some((role, cast_i64_u64(memid), memtype))
    }

    /// Resolve every remaining member, stopping for good at the first fault.
    pub fn collect_members(&mut self) -> (r: Vec<(String, u64, RelationMemberType)>)
        requires
            old(self).wf(),
        ensures
            final(self).wf(),
            members_view(r@) == old(self).remaining(),
    {
        let mut out: Vec<(String, u64, RelationMemberType)> = Vec::new();
        proof {
            assert(members_view(out@) + old(self).remaining() =~= old(self).remaining());
        }
        loop
            invariant
                self.wf(),
                members_view(out@) + self.remaining() == old(self).remaining(),
            decreases self.remaining().len(),
        {
            let ghost before = self.remaining();
            match self.next() {
                Some(m) => {
                    let ghost prev = out@;
                    let ghost mv = (m.0@, m.1, m.2);
                    out.push(m);
                    proof {
                        assert(members_view(out@) =~= members_view(prev) + seq![mv]);
                        assert(members_view(out@) + self.remaining() =~= members_view(prev)
                            + before);
                    }
                },
                None => {
                    proof {
                        assert(members_view(out@) + before =~= members_view(out@));
                    }
                    return out;
                },
            }
        }
    }
}

/// The mathematical content of a decoded relation.
#[verifier::ext_equal]
pub struct RelationModel {
    pub id: u64,
    pub info: Option<InfoModel>,
    pub tags: Seq<(Seq<char>, Seq<char>)>,
    pub members: Seq<MemberModel>,
}

/// The accumulator of the relation field scan.
#[verifier::ext_equal]
pub struct RelationScan {
    pub id: u64,
    pub info: Option<InfoModel>,
    pub keys: Seq<u32>,
    pub vals: Seq<u32>,
    pub roles: Seq<i32>,
    pub memids: Seq<i64>,
    pub types: Seq<u32>,
}

/// The scan's starting point: zero id, nothing else.
pub open spec fn relation_scan_defaults() -> RelationScan {
    RelationScan {
        id: 0,
        info: Option::None,
        keys: Seq::empty(),
        vals: Seq::empty(),
        roles: Seq::empty(),
        memids: Seq::empty(),
        types: Seq::empty(),
    }
}

/// Folds the fields of a relation message, last occurrence winning; the id
/// is a plain varint, the member-id column delta-decoded from zero.
pub open spec fn relation_scan(fs: Seq<(u32, WireVal)>, bm: BlockModel, acc: RelationScan) -> RelationScan
    decreases fs.len(),
{
    if fs.len() == 0 {
        acc
    } else {
        let (tag, v) = fs[0];
        let next = if tag == 1 {
            RelationScan { id: crate::wire::val_u64(v), ..acc }
        } else if tag == 2 {
            match v {
                WireVal::Bytes(b) => RelationScan { keys: packed_u32s_of(b), ..acc },
                _ => acc,
            }
        } else if tag == 3 {
            match v {
                WireVal::Bytes(b) => RelationScan { vals: packed_u32s_of(b), ..acc },
                _ => acc,
            }
        } else if tag == 4 {
            match v {
                WireVal::Bytes(b) => RelationScan {
                    info: Option::Some(info_of(b, bm.stringtable)),
                    ..acc
                },
                _ => acc,
            }
        } else if tag == 8 {
            match v {
                WireVal::Bytes(b) => RelationScan { roles: packed_i32s_of(b), ..acc },
                _ => acc,
            }
        } else if tag == 9 {
            match v {
                WireVal::Bytes(b) => RelationScan {
                    memids: delta_outputs(packed_i64s_of(b), 0),
                    ..acc
                },
                _ => acc,
            }
        } else if tag == 10 {
            match v {
                WireVal::Bytes(b) => RelationScan { types: packed_u32s_of(b), ..acc },
                _ => acc,
            }
        } else {
            acc
        };
        relation_scan(fs.skip(1), bm, next)
    }
}

/// What a relation message decodes to within its block.
pub open spec fn relation_of(d: Seq<u8>, bm: BlockModel) -> RelationModel {
    let s = relation_scan(fields_of(d, 0), bm, relation_scan_defaults());
    RelationModel {
        id: s.id,
        info: s.info,
        tags: tags_resolved(s.keys, s.vals, bm.stringtable),
        members: members_resolved(s.roles, s.memids, s.types, bm.stringtable),
    }
}

/// A decoded relation: an ordered list of members with an id, optional
/// metadata and resolved tags. Relations compare equal by their id alone.
#[derive(Debug, Clone)]
pub struct Relation {
    pub id: u64,
    pub info: Option<Info>,
    tags: Vec<(String, String)>,
    members: Vec<(String, u64, RelationMemberType)>,
}

impl View for Relation {
    type V = RelationModel;

    closed spec fn view(&self) -> RelationModel {
        RelationModel {
            id: self.id,
            info: match self.info {
                Option::Some(i) => Option::Some(i@),
                Option::None => Option::None,
            },
            tags: pairs_view(self.tags@),
            members: members_view(self.members@),
        }
    }
}

impl Relation {
    /// Decode a relation message within its block.
    pub fn parse(primitive_block: &PrimitiveBlock, data: &[u8]) -> (r: Relation)
        ensures
            r@ == relation_of(data@, primitive_block@),
    {
        let ghost bm = primitive_block@;
        let fields = read_fields(data);
        let ghost fs = wire_fields_view(fields@);
        proof {
            assert(fs.skip(0) =~= fs);
        }
        let mut id: u64 = 0;
        let mut info: Option<Info> = None;
        let mut tags_iter = TagsIter::new(&primitive_block.stringtable);
        let mut rels_iter = RelationMembersIter::new(&primitive_block.stringtable);
        proof {
            assert((RelationScan {
                id: id,
                info: Option::None,
                keys: tags_iter.keys_rest(),
                vals: tags_iter.vals_rest(),
                roles: rels_iter.roles_rest(),
                memids: rels_iter.memids_rest(),
                types: rels_iter.types_rest(),
            }) =~= relation_scan_defaults());
        }
        let n = fields.len();
        let mut i: usize = 0;
        while i < n
            invariant
                n == fields@.len(),
                i <= n,
                fs == wire_fields_view(fields@),
                fs == fields_of(data@, 0),
                bm == primitive_block@,
                tags_iter.wf(),
                tags_iter.st_view() == bm.stringtable,
                rels_iter.wf(),
                rels_iter.st_view() == bm.stringtable,
                relation_scan(
                    fs.skip(i as int),
                    bm,
                    RelationScan {
                        id: id,
                        info: match info {
                            Option::Some(x) => Option::Some(x@),
                            Option::None => Option::None,
                        },
                        keys: tags_iter.keys_rest(),
                        vals: tags_iter.vals_rest(),
                        roles: rels_iter.roles_rest(),
                        memids: rels_iter.memids_rest(),
                        types: rels_iter.types_rest(),
                    },
                ) == relation_scan(fs, bm, relation_scan_defaults()),
            decreases n - i,
        {
            let f = &fields[i];
            proof {
                assert(fs[i as int] == fields@[i as int]@);
                assert(fs.skip(i as int)[0] == fs[i as int]);
                assert(fs.skip(i as int).skip(1) =~= fs.skip(i as int + 1));
            }
            if f.tag == 1 {
                id = f.value.as_u64();
            } else if f.tag == 2 {
                match &f.value {
                    WireValue::Bytes(b) => tags_iter.set_keys(b.as_slice()),
                    _ => {},
                }
            } else if f.tag == 3 {
                match &f.value {
                    WireValue::Bytes(b) => tags_iter.set_values(b.as_slice()),
                    _ => {},
                }
            } else if f.tag == 4 {
                match &f.value {
                    WireValue::Bytes(b) => {
                        info = Some(Info::parse(&primitive_block.stringtable, b.as_slice()));
                    },
                    _ => {},
                }
            } else if f.tag == 8 {
                match &f.value {
                    WireValue::Bytes(b) => rels_iter.set_roles(b.as_slice()),
                    _ => {},
                }
            } else if f.tag == 9 {
                match &f.value {
                    WireValue::Bytes(b) => rels_iter.set_memids(b.as_slice()),
                    _ => {},
                }
            } else if f.tag == 10 {
                match &f.value {
                    WireValue::Bytes(b) => rels_iter.set_types(b.as_slice()),
                    _ => {},
                }
            }
            i = i + 1;
        }
        proof {
            assert(fs.skip(n as int) =~= Seq::<(u32, WireVal)>::empty());
        }
        let tags = tags_iter.collect_tags();
        let members = rels_iter.collect_members();
        let relation = Relation { id, info, tags, members };
        proof {
            assert(relation@ =~= relation_of(data@, bm));
        }
        relation
    }

    /// The relation's resolved tags.
    pub fn tags(&self) -> (r: &Vec<(String, String)>)
        ensures
            pairs_view(r@) == self@.tags,
    {
        &self.tags
    }

    /// The relation's resolved members, in file order.
    pub fn members(&self) -> (r: &Vec<(String, u64, RelationMemberType)>)
        ensures
            members_view(r@) == self@.members,
    {
        &self.members
    }
}

impl PartialEq for Relation {
    fn eq(&self, other: &Relation) -> (r: bool) {
        self.id == other.id
    }
}

impl vstd::std_specs::cmp::PartialEqSpecImpl for Relation {
    open spec fn obeys_eq_spec() -> bool {
        true
    }

    open spec fn eq_spec(&self, other: &Relation) -> bool {
        self@.id == other@.id
    }
}

impl Eq for Relation {

}

} // verus!
