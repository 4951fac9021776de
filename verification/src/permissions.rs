//! Permission bit sets and their resolution through roles and the category
//! and channel overwrite tiers.

use vstd::prelude::*;

verus! {

/// A set of permissions, one bit each.
#[derive(Clone, Copy, PartialEq, Eq, Structural, Hash, Default, Debug)]
pub struct Permissions(pub u64);

/// Whether bit `k` is set in `x`.
pub open spec fn has_bit(x: u64, k: u64) -> bool {
    (x >> k) & 1 == 1
}

impl Permissions {
    #[allow(non_snake_case)]
    pub fn NONE() -> (r: Permissions)
        ensures
            r.0 == 0,
    {
        Permissions(0)
    }

    #[allow(non_snake_case)]
    pub fn VIEW_CHANNEL() -> (r: Permissions)
        ensures
            r.0 == 0x1,
    {
        Permissions(0x1)
    }

    #[allow(non_snake_case)]
    pub fn SEND_MESSAGES() -> (r: Permissions)
        ensures
            r.0 == 0x2,
    {
        Permissions(0x2)
    }

    #[allow(non_snake_case)]
    pub fn EMBED_LINKS() -> (r: Permissions)
        ensures
            r.0 == 0x4,
    {
        Permissions(0x4)
    }

    #[allow(non_snake_case)]
    pub fn ATTACH_FILES() -> (r: Permissions)
        ensures
            r.0 == 0x8,
    {
        Permissions(0x8)
    }

    #[allow(non_snake_case)]
    pub fn ADD_REACTIONS() -> (r: Permissions)
        ensures
            r.0 == 0x10,
    {
        Permissions(0x10)
    }

    #[allow(non_snake_case)]
    pub fn USE_EXTERNAL_EMOJI() -> (r: Permissions)
        ensures
            r.0 == 0x20,
    {
        Permissions(0x20)
    }

    #[allow(non_snake_case)]
    pub fn MENTION_EVERYONE() -> (r: Permissions)
        ensures
            r.0 == 0x40,
    {
        Permissions(0x40)
    }

    #[allow(non_snake_case)]
    pub fn READ_HISTORY() -> (r: Permissions)
        ensures
            r.0 == 0x80,
    {
        Permissions(0x80)
    }

    #[allow(non_snake_case)]
    pub fn SEND_TTS() -> (r: Permissions)
        ensures
            r.0 == 0x100,
    {
        Permissions(0x100)
    }

    #[allow(non_snake_case)]
    pub fn BYPASS_SLOWMODE() -> (r: Permissions)
        ensures
            r.0 == 0x200,
    {
        Permissions(0x200)
    }

    #[allow(non_snake_case)]
    pub fn MANAGE_MESSAGES() -> (r: Permissions)
        ensures
            r.0 == 0x1_0000,
    {
        Permissions(0x1_0000)
    }

    #[allow(non_snake_case)]
    pub fn PIN_MESSAGES() -> (r: Permissions)
        ensures
            r.0 == 0x2_0000,
    {
        Permissions(0x2_0000)
    }

    #[allow(non_snake_case)]
    pub fn MANAGE_CHANNELS() -> (r: Permissions)
        ensures
            r.0 == 0x4_0000,
    {
        Permissions(0x4_0000)
    }

    #[allow(non_snake_case)]
    pub fn MANAGE_ROLES() -> (r: Permissions)
        ensures
            r.0 == 0x8_0000,
    {
        Permissions(0x8_0000)
    }

    #[allow(non_snake_case)]
    pub fn MANAGE_EMOJI() -> (r: Permissions)
        ensures
            r.0 == 0x10_0000,
    {
        Permissions(0x10_0000)
    }

    #[allow(non_snake_case)]
    pub fn MANAGE_WEBHOOKS() -> (r: Permissions)
        ensures
            r.0 == 0x20_0000,
    {
        Permissions(0x20_0000)
    }

    #[allow(non_snake_case)]
    pub fn MANAGE_GUILD() -> (r: Permissions)
        ensures
            r.0 == 0x40_0000,
    {
        Permissions(0x40_0000)
    }

    #[allow(non_snake_case)]
    pub fn VIEW_AUDIT_LOG() -> (r: Permissions)
        ensures
            r.0 == 0x80_0000,
    {
        Permissions(0x80_0000)
    }

    #[allow(non_snake_case)]
    pub fn CREATE_INVITES() -> (r: Permissions)
        ensures
            r.0 == 0x100_0000,
    {
        Permissions(0x100_0000)
    }

    #[allow(non_snake_case)]
    pub fn CHANGE_NICKNAME() -> (r: Permissions)
        ensures
            r.0 == 0x200_0000,
    {
        Permissions(0x200_0000)
    }

    #[allow(non_snake_case)]
    pub fn MANAGE_NICKNAMES() -> (r: Permissions)
        ensures
            r.0 == 0x400_0000,
    {
        Permissions(0x400_0000)
    }

    #[allow(non_snake_case)]
    pub fn VIEW_CHANNEL_MEMBERS() -> (r: Permissions)
        ensures
            r.0 == 0x800_0000,
    {
        Permissions(0x800_0000)
    }

    #[allow(non_snake_case)]
    pub fn KICK_MEMBERS() -> (r: Permissions)
        ensures
            r.0 == 0x1_0000_0000,
    {
        Permissions(0x1_0000_0000)
    }

    #[allow(non_snake_case)]
    pub fn BAN_MEMBERS() -> (r: Permissions)
        ensures
            r.0 == 0x2_0000_0000,
    {
        Permissions(0x2_0000_0000)
    }

    #[allow(non_snake_case)]
    pub fn MODERATE_MEMBERS() -> (r: Permissions)
        ensures
            r.0 == 0x4_0000_0000,
    {
        Permissions(0x4_0000_0000)
    }

    #[allow(non_snake_case)]
    pub fn CONNECT() -> (r: Permissions)
        ensures
            r.0 == 0x100_0000_0000,
    {
        Permissions(0x100_0000_0000)
    }

    #[allow(non_snake_case)]
    pub fn SPEAK() -> (r: Permissions)
        ensures
            r.0 == 0x200_0000_0000,
    {
        Permissions(0x200_0000_0000)
    }

    #[allow(non_snake_case)]
    pub fn STREAM() -> (r: Permissions)
        ensures
            r.0 == 0x400_0000_0000,
    {
        Permissions(0x400_0000_0000)
    }

    #[allow(non_snake_case)]
    pub fn VIDEO() -> (r: Permissions)
        ensures
            r.0 == 0x800_0000_0000,
    {
        Permissions(0x800_0000_0000)
    }

    #[allow(non_snake_case)]
    pub fn USE_VAD() -> (r: Permissions)
        ensures
            r.0 == 0x1000_0000_0000,
    {
        Permissions(0x1000_0000_0000)
    }

    #[allow(non_snake_case)]
    pub fn PRIORITY_SPEAKER() -> (r: Permissions)
        ensures
            r.0 == 0x2000_0000_0000,
    {
        Permissions(0x2000_0000_0000)
    }

    #[allow(non_snake_case)]
    pub fn MUTE_MEMBERS() -> (r: Permissions)
        ensures
            r.0 == 0x4000_0000_0000,
    {
        Permissions(0x4000_0000_0000)
    }

    #[allow(non_snake_case)]
    pub fn DEAFEN_MEMBERS() -> (r: Permissions)
        ensures
            r.0 == 0x8000_0000_0000,
    {
        Permissions(0x8000_0000_0000)
    }

    #[allow(non_snake_case)]
    pub fn MOVE_MEMBERS() -> (r: Permissions)
        ensures
            r.0 == 0x1_0000_0000_0000,
    {
        Permissions(0x1_0000_0000_0000)
    }

    #[allow(non_snake_case)]
    pub fn USE_SOUNDBOARD() -> (r: Permissions)
        ensures
            r.0 == 0x2_0000_0000_0000,
    {
        Permissions(0x2_0000_0000_0000)
    }

    #[allow(non_snake_case)]
    pub fn ADMINISTRATOR() -> (r: Permissions)
        ensures
            r.0 == 0x8000_0000_0000_0000,
    {
        Permissions(0x8000_0000_0000_0000)
    }

    pub open spec fn spec_contains(self, other: Permissions) -> bool {
        self.0 & other.0 == other.0
    }

    pub fn bits(self) -> (r: u64)
        ensures
            r == self.0,
    {
        self.0
    }

    /// Every permission of `other` is in `self`.
    pub fn contains(self, other: Permissions) -> (r: bool)
        ensures
            r == self.spec_contains(other),
    {
        self.0 & other.0 == other.0
    }

    pub fn intersects(self, other: Permissions) -> (r: bool)
        ensures
            r == (self.0 & other.0 != 0),
    {
        self.0 & other.0 != 0
    }

    pub fn union(self, other: Permissions) -> (r: Permissions)
        ensures
            r.0 == self.0 | other.0,
    {
        Permissions(self.0 | other.0)
    }

    pub fn difference(self, other: Permissions) -> (r: Permissions)
        ensures
            r.0 == self.0 & !other.0,
    {
        Permissions(self.0 & !other.0)
    }

    pub fn is_admin(self) -> (r: bool)
        ensures
            r == has_bit(self.0, 63),
    {
        let x = self.0;
        assert((x & 0x8000_0000_0000_0000u64 == 0x8000_0000_0000_0000u64) == ((x >> 63u64) & 1 == 1))
            by (bit_vector);
        self.contains(Self::ADMINISTRATOR())
    }

    /// What a fresh guild grants `@everyone`.
    pub fn default_everyone() -> (r: Permissions)
        ensures
            r.0 == 0x2_1f00_0b00_00bf,
    {
        let r = Self::VIEW_CHANNEL().union(Self::SEND_MESSAGES()).union(Self::EMBED_LINKS()).union(
            Self::ATTACH_FILES(),
        ).union(Self::ADD_REACTIONS()).union(Self::USE_EXTERNAL_EMOJI()).union(Self::READ_HISTORY()).union(
            Self::CREATE_INVITES(),
        ).union(Self::CHANGE_NICKNAME()).union(Self::VIEW_CHANNEL_MEMBERS()).union(Self::CONNECT()).union(
            Self::SPEAK(),
        ).union(Self::STREAM()).union(Self::VIDEO()).union(Self::USE_VAD()).union(Self::USE_SOUNDBOARD());
        assert(0x1u64 | 0x2u64 | 0x4u64 | 0x8u64 | 0x10u64 | 0x20u64 | 0x80u64 | 0x100_0000u64
            | 0x200_0000u64 | 0x800_0000u64 | 0x100_0000_0000u64 | 0x200_0000_0000u64
            | 0x400_0000_0000u64 | 0x800_0000_0000u64 | 0x1000_0000_0000u64
            | 0x2_0000_0000_0000u64 == 0x2_1f00_0b00_00bfu64) by (bit_vector);
        r
    }

    /// The names of the named permissions in `self`, in bit order.
    pub fn names(self) -> (r: Vec<&'static str>)
        ensures
            r@ == names_of(all_named(), self.0),
    {
        let table = named_table();
        let mut out: Vec<&'static str> = Vec::new();
        let mut i: usize = 0;
        while i < table.len()
            invariant
                table@ == all_named(),
                0 <= i <= table@.len(),
                out@ == names_of(all_named().take(i as int), self.0),
            decreases table@.len() - i,
        {
            let (name, p) = table[i];
            assert(all_named().take(i + 1).drop_last() == all_named().take(i as int));
            if self.contains(p) {
                out.push(name);
            }
            i = i + 1;
        }
        assert(all_named().take(table@.len() as int) == all_named());
        out
    }
}

/// The named permissions in bit order.
pub open spec fn all_named() -> Seq<(&'static str, Permissions)> {
    seq![
        ("VIEW_CHANNEL", Permissions(0x1)),
        ("SEND_MESSAGES", Permissions(0x2)),
        ("EMBED_LINKS", Permissions(0x4)),
        ("ATTACH_FILES", Permissions(0x8)),
        ("ADD_REACTIONS", Permissions(0x10)),
        ("USE_EXTERNAL_EMOJI", Permissions(0x20)),
        ("MENTION_EVERYONE", Permissions(0x40)),
        ("READ_HISTORY", Permissions(0x80)),
        ("SEND_TTS", Permissions(0x100)),
        ("BYPASS_SLOWMODE", Permissions(0x200)),
        ("MANAGE_MESSAGES", Permissions(0x1_0000)),
        ("PIN_MESSAGES", Permissions(0x2_0000)),
        ("MANAGE_CHANNELS", Permissions(0x4_0000)),
        ("MANAGE_ROLES", Permissions(0x8_0000)),
        ("MANAGE_EMOJI", Permissions(0x10_0000)),
        ("MANAGE_WEBHOOKS", Permissions(0x20_0000)),
        ("MANAGE_GUILD", Permissions(0x40_0000)),
        ("VIEW_AUDIT_LOG", Permissions(0x80_0000)),
        ("CREATE_INVITES", Permissions(0x100_0000)),
        ("CHANGE_NICKNAME", Permissions(0x200_0000)),
        ("MANAGE_NICKNAMES", Permissions(0x400_0000)),
        ("VIEW_CHANNEL_MEMBERS", Permissions(0x800_0000)),
        ("KICK_MEMBERS", Permissions(0x1_0000_0000)),
        ("BAN_MEMBERS", Permissions(0x2_0000_0000)),
        ("MODERATE_MEMBERS", Permissions(0x4_0000_0000)),
        ("CONNECT", Permissions(0x100_0000_0000)),
        ("SPEAK", Permissions(0x200_0000_0000)),
        ("STREAM", Permissions(0x400_0000_0000)),
        ("VIDEO", Permissions(0x800_0000_0000)),
        ("USE_VAD", Permissions(0x1000_0000_0000)),
        ("PRIORITY_SPEAKER", Permissions(0x2000_0000_0000)),
        ("MUTE_MEMBERS", Permissions(0x4000_0000_0000)),
        ("DEAFEN_MEMBERS", Permissions(0x8000_0000_0000)),
        ("MOVE_MEMBERS", Permissions(0x1_0000_0000_0000)),
        ("USE_SOUNDBOARD", Permissions(0x2_0000_0000_0000)),
        ("ADMINISTRATOR", Permissions(0x8000_0000_0000_0000)),
    ]
}

/// The names of the entries of `table` whose permission lies in `bits`, in order.
pub open spec fn names_of(table: Seq<(&'static str, Permissions)>, bits: u64) -> Seq<&'static str>
    decreases table.len(),
{
    if table.len() == 0 {
        Seq::empty()
    } else {
        let prev = names_of(table.drop_last(), bits);
        if bits & table.last().1.0 == table.last().1.0 {
            prev.push(table.last().0)
        } else {
            prev
        }
    }
}

fn named_table() -> (r: Vec<(&'static str, Permissions)>)
    ensures
        r@ == all_named(),
{
    let r = vec![
        ("VIEW_CHANNEL", Permissions::VIEW_CHANNEL()),
        ("SEND_MESSAGES", Permissions::SEND_MESSAGES()),
        ("EMBED_LINKS", Permissions::EMBED_LINKS()),
        ("ATTACH_FILES", Permissions::ATTACH_FILES()),
        ("ADD_REACTIONS", Permissions::ADD_REACTIONS()),
        ("USE_EXTERNAL_EMOJI", Permissions::USE_EXTERNAL_EMOJI()),
        ("MENTION_EVERYONE", Permissions::MENTION_EVERYONE()),
        ("READ_HISTORY", Permissions::READ_HISTORY()),
        ("SEND_TTS", Permissions::SEND_TTS()),
        ("BYPASS_SLOWMODE", Permissions::BYPASS_SLOWMODE()),
        ("MANAGE_MESSAGES", Permissions::MANAGE_MESSAGES()),
        ("PIN_MESSAGES", Permissions::PIN_MESSAGES()),
        ("MANAGE_CHANNELS", Permissions::MANAGE_CHANNELS()),
        ("MANAGE_ROLES", Permissions::MANAGE_ROLES()),
        ("MANAGE_EMOJI", Permissions::MANAGE_EMOJI()),
        ("MANAGE_WEBHOOKS", Permissions::MANAGE_WEBHOOKS()),
        ("MANAGE_GUILD", Permissions::MANAGE_GUILD()),
        ("VIEW_AUDIT_LOG", Permissions::VIEW_AUDIT_LOG()),
        ("CREATE_INVITES", Permissions::CREATE_INVITES()),
        ("CHANGE_NICKNAME", Permissions::CHANGE_NICKNAME()),
        ("MANAGE_NICKNAMES", Permissions::MANAGE_NICKNAMES()),
        ("VIEW_CHANNEL_MEMBERS", Permissions::VIEW_CHANNEL_MEMBERS()),
        ("KICK_MEMBERS", Permissions::KICK_MEMBERS()),
        ("BAN_MEMBERS", Permissions::BAN_MEMBERS()),
        ("MODERATE_MEMBERS", Permissions::MODERATE_MEMBERS()),
        ("CONNECT", Permissions::CONNECT()),
        ("SPEAK", Permissions::SPEAK()),
        ("STREAM", Permissions::STREAM()),
        ("VIDEO", Permissions::VIDEO()),
        ("USE_VAD", Permissions::USE_VAD()),
        ("PRIORITY_SPEAKER", Permissions::PRIORITY_SPEAKER()),
        ("MUTE_MEMBERS", Permissions::MUTE_MEMBERS()),
        ("DEAFEN_MEMBERS", Permissions::DEAFEN_MEMBERS()),
        ("MOVE_MEMBERS", Permissions::MOVE_MEMBERS()),
        ("USE_SOUNDBOARD", Permissions::USE_SOUNDBOARD()),
        ("ADMINISTRATOR", Permissions::ADMINISTRATOR()),
    ];
    assert(r@ =~= all_named());
    r
}

impl core::ops::BitOr for Permissions {
    type Output = Permissions;

    fn bitor(self, rhs: Self) -> (r: Self) {
        Permissions(self.0 | rhs.0)
    }
}

impl vstd::std_specs::ops::BitOrSpecImpl for Permissions {
    open spec fn obeys_bitor_spec() -> bool {
        true
    }

    open spec fn bitor_req(self, rhs: Permissions) -> bool {
        true
    }

    open spec fn bitor_spec(self, rhs: Permissions) -> Permissions {
        Permissions(self.0 | rhs.0)
    }
}

impl core::ops::BitAnd for Permissions {
    type Output = Permissions;

    fn bitand(self, rhs: Self) -> (r: Self) {
        Permissions(self.0 & rhs.0)
    }
}

impl vstd::std_specs::ops::BitAndSpecImpl for Permissions {
    open spec fn obeys_bitand_spec() -> bool {
        true
    }

    open spec fn bitand_req(self, rhs: Permissions) -> bool {
        true
    }

    open spec fn bitand_spec(self, rhs: Permissions) -> Permissions {
        Permissions(self.0 & rhs.0)
    }
}

impl core::ops::Not for Permissions {
    type Output = Permissions;

    fn not(self) -> (r: Self) {
        Permissions(!self.0)
    }
}

impl vstd::std_specs::ops::NotSpecImpl for Permissions {
    open spec fn obeys_not_spec() -> bool {
        true
    }

    open spec fn not_req(self) -> bool {
        true
    }

    open spec fn not_spec(self) -> Permissions {
        Permissions(!self.0)
    }
}

/// An allow/deny pair at one level of a tier.
#[derive(Clone, Copy, PartialEq, Eq, Structural, Debug)]
pub struct Overwrite {
    pub allow: Permissions,
    pub deny: Permissions,
}

#[derive(Clone, Copy, PartialEq, Eq, Structural, Debug)]
pub enum Membership {
    NotMember,
    Member,
    Owner,
    InstanceAdmin,
}

/// Everything that decides a member's permissions in one channel.
pub struct PermissionInputs<'a> {
    pub membership: Membership,
    pub everyone: Permissions,
    pub roles: &'a [Permissions],
    pub category_everyone: Option<Overwrite>,
    pub category_roles: &'a [Overwrite],
    pub category_member: Option<Overwrite>,
    pub channel_everyone: Option<Overwrite>,
    pub channel_roles: &'a [Overwrite],
    pub channel_member: Option<Overwrite>,
}

/// The union of a sequence of permission sets.
pub open spec fn or_all(s: Seq<Permissions>) -> u64
    decreases s.len(),
{
    if s.len() == 0 {
        0
    } else {
        or_all(s.drop_last()) | s.last().0
    }
}

/// The union of the allow sets of a sequence of overwrites.
pub open spec fn allow_all(s: Seq<Overwrite>) -> u64
    decreases s.len(),
{
    if s.len() == 0 {
        0
    } else {
        allow_all(s.drop_last()) | s.last().allow.0
    }
}

/// The union of the deny sets of a sequence of overwrites.
pub open spec fn deny_all(s: Seq<Overwrite>) -> u64
    decreases s.len(),
{
    if s.len() == 0 {
        0
    } else {
        deny_all(s.drop_last()) | s.last().deny.0
    }
}

/// `p` with the overwrite applied: denied bits cleared, then allowed bits set.
pub open spec fn overwrite(p: u64, o: Option<Overwrite>) -> u64 {
    match o {
        Some(o) => (p & !o.deny.0) | o.allow.0,
        None => p,
    }
}

/// One tier: `@everyone`, then all role overwrites together, then the member's own.
pub open spec fn tier(p: u64, everyone: Option<Overwrite>, roles: Seq<Overwrite>, member: Option<Overwrite>) -> u64 {
    let p1 = overwrite(p, everyone);
    let p2 = (p1 & !deny_all(roles)) | allow_all(roles);
    overwrite(p2, member)
}

/// The permissions that the inputs resolve to.
pub open spec fn resolved(i: PermissionInputs) -> u64 {
    match i.membership {
        Membership::NotMember => 0,
        Membership::Owner | Membership::InstanceAdmin => u64::MAX,
        Membership::Member => {
            let base = i.everyone.0 | or_all(i.roles@);
            if has_bit(base, 63) {
                u64::MAX
            } else {
                tier(
                    tier(base, i.category_everyone, i.category_roles@, i.category_member),
                    i.channel_everyone,
                    i.channel_roles@,
                    i.channel_member,
                )
            }
        }
    }
}

/// Resolves a member's permissions in a channel: non-members get nothing,
/// owners and instance admins everything, then base = `@everyone` ∪ roles, where
/// an administrator base is everything, then the category tier, then the
/// channel tier.
pub fn resolve(inputs: &PermissionInputs<'_>) -> (r: Permissions)
    ensures
        r.0 == resolved(*inputs),
{
    match inputs.membership {
        Membership::NotMember => return Permissions::NONE(),
        Membership::Owner | Membership::InstanceAdmin => return Permissions(u64::MAX),
        Membership::Member => {},
    }
    let mut base = inputs.everyone;
    let mut i: usize = 0;
    let ghost e0 = inputs.everyone.0;
    assert(e0 | 0u64 == e0) by (bit_vector);
    assert(inputs.roles@.take(0) == Seq::<Permissions>::empty());
    while i < inputs.roles.len()
        invariant
            0 <= i <= inputs.roles@.len(),
            base.0 == inputs.everyone.0 | or_all(inputs.roles@.take(i as int)),
        decreases inputs.roles@.len() - i,
    {
        let r = inputs.roles[i];
        assert(inputs.roles@.take(i + 1).drop_last() == inputs.roles@.take(i as int));
        let ghost prev = or_all(inputs.roles@.take(i as int));
        let ghost e = inputs.everyone.0;
        let ghost rb = r.0;
        assert((e | prev) | rb == e | (prev | rb)) by (bit_vector);
        base = base.union(r);
        i = i + 1;
    }
    assert(inputs.roles@.take(inputs.roles@.len() as int) == inputs.roles@);
    if base.is_admin() {
        return Permissions(u64::MAX);
    }
    let mut p = base;
    p = apply_tier(p, inputs.category_everyone, inputs.category_roles, inputs.category_member);
    p = apply_tier(p, inputs.channel_everyone, inputs.channel_roles, inputs.channel_member);
    p
}

fn apply_tier(p: Permissions, everyone: Option<Overwrite>, roles: &[Overwrite], member: Option<Overwrite>) -> (r: Permissions)
    ensures
        r.0 == tier(p.0, everyone, roles@, member),
{
    let mut p = p;
    if let Some(o) = everyone {
        p = p.difference(o.deny).union(o.allow);
    }
    let mut allow = Permissions::NONE();
    let mut deny = Permissions::NONE();
    let mut i: usize = 0;
    while i < roles.len()
        invariant
            0 <= i <= roles@.len(),
            allow.0 == allow_all(roles@.take(i as int)),
            deny.0 == deny_all(roles@.take(i as int)),
        decreases roles@.len() - i,
    {
        let o = roles[i];
        assert(roles@.take(i + 1).drop_last() == roles@.take(i as int));
        allow = allow.union(o.allow);
        deny = deny.union(o.deny);
        i = i + 1;
    }
    assert(roles@.take(roles@.len() as int) == roles@);
    p = p.difference(deny).union(allow);
    if let Some(o) = member {
        p = p.difference(o.deny).union(o.allow);
    }
    p
}

/// How one tier settles bit `k`, if it mentions it at all: the member's own
/// overwrite first (allow before deny), then the roles together (allow before
/// deny), then `@everyone` (allow before deny).
pub open spec fn tier_decides(everyone: Option<Overwrite>, roles: Seq<Overwrite>, member: Option<Overwrite>, k: u64) -> Option<bool> {
    if member is Some && has_bit(member->0.allow.0, k) {
        Some(true)
    } else if member is Some && has_bit(member->0.deny.0, k) {
        Some(false)
    } else if has_bit(allow_all(roles), k) {
        Some(true)
    } else if has_bit(deny_all(roles), k) {
        Some(false)
    } else if everyone is Some && has_bit(everyone->0.allow.0, k) {
        Some(true)
    } else if everyone is Some && has_bit(everyone->0.deny.0, k) {
        Some(false)
    } else {
        None
    }
}

proof fn lemma_overwrite_bit(p: u64, o: Option<Overwrite>, k: u64)
    requires
        k < 64,
    ensures
        has_bit(overwrite(p, o), k) == (if o is Some && has_bit(o->0.allow.0, k) {
            true
        } else if o is Some && has_bit(o->0.deny.0, k) {
            false
        } else {
            has_bit(p, k)
        }),
{
    if let Some(ov) = o {
        let a = ov.allow.0;
        let d = ov.deny.0;
        assert((((p & !d) | a) >> k) & 1 == (if (a >> k) & 1 == 1 {
            1u64
        } else if (d >> k) & 1 == 1 {
            0u64
        } else {
            (p >> k) & 1
        })) by (bit_vector)
            requires
                k < 64,
        ;
    }
}

/// Within a tier the member's own overwrite beats the role overwrites, which
/// beat `@everyone`; at each level an allow beats a deny; a bit the tier does
/// not mention keeps its value.
pub proof fn lemma_tier_precedence(p: u64, everyone: Option<Overwrite>, roles: Seq<Overwrite>, member: Option<Overwrite>, k: u64)
    requires
        k < 64,
    ensures
        has_bit(tier(p, everyone, roles, member), k) == match tier_decides(everyone, roles, member, k) {
            Some(b) => b,
            None => has_bit(p, k),
        },
{
    let p1 = overwrite(p, everyone);
    let ra = allow_all(roles);
    let rd = deny_all(roles);
    let p2 = (p1 & !rd) | ra;
    lemma_overwrite_bit(p, everyone, k);
    lemma_overwrite_bit(p2, member, k);
    assert((((p1 & !rd) | ra) >> k) & 1 == (if (ra >> k) & 1 == 1 {
        1u64
    } else if (rd >> k) & 1 == 1 {
        0u64
    } else {
        (p1 >> k) & 1
    })) by (bit_vector)
        requires
            k < 64,
    ;
}

/// A bit is in the union of the role allow sets exactly when some role allows it.
pub proof fn lemma_allow_all_bit(s: Seq<Overwrite>, k: u64)
    requires
        k < 64,
    ensures
        has_bit(allow_all(s), k) <==> exists|j: int| 0 <= j < s.len() && has_bit(#[trigger] s[j].allow.0, k),
    decreases s.len(),
{
    if s.len() == 0 {
        assert((0u64 >> k) & 1 == 0) by (bit_vector);
    } else {
        lemma_allow_all_bit(s.drop_last(), k);
        let a = allow_all(s.drop_last());
        let b = s.last().allow.0;
        assert(((a | b) >> k) & 1 == 1 <==> ((a >> k) & 1 == 1 || (b >> k) & 1 == 1)) by (bit_vector);
        if has_bit(allow_all(s), k) {
            if !has_bit(b, k) {
                let j = choose|j: int| 0 <= j < s.drop_last().len() && has_bit(#[trigger] s.drop_last()[j].allow.0, k);
                assert(s[j] == s.drop_last()[j]);
            } else {
                assert(has_bit(s[s.len() - 1].allow.0, k));
            }
        } else {
            assert forall|j: int| 0 <= j < s.len() implies !has_bit(#[trigger] s[j].allow.0, k) by {
                if j < s.len() - 1 {
                    assert(s[j] == s.drop_last()[j]);
                }
            }
        }
    }
}

/// A bit is in the union of the role deny sets exactly when some role denies it.
pub proof fn lemma_deny_all_bit(s: Seq<Overwrite>, k: u64)
    requires
        k < 64,
    ensures
        has_bit(deny_all(s), k) <==> exists|j: int| 0 <= j < s.len() && has_bit(#[trigger] s[j].deny.0, k),
    decreases s.len(),
{
    if s.len() == 0 {
        assert((0u64 >> k) & 1 == 0) by (bit_vector);
    } else {
        lemma_deny_all_bit(s.drop_last(), k);
        let a = deny_all(s.drop_last());
        let b = s.last().deny.0;
        assert(((a | b) >> k) & 1 == 1 <==> ((a >> k) & 1 == 1 || (b >> k) & 1 == 1)) by (bit_vector);
        if has_bit(deny_all(s), k) {
            if !has_bit(b, k) {
                let j = choose|j: int| 0 <= j < s.drop_last().len() && has_bit(#[trigger] s.drop_last()[j].deny.0, k);
                assert(s[j] == s.drop_last()[j]);
            } else {
                assert(has_bit(s[s.len() - 1].deny.0, k));
            }
        } else {
            assert forall|j: int| 0 <= j < s.len() implies !has_bit(#[trigger] s[j].deny.0, k) by {
                if j < s.len() - 1 {
                    assert(s[j] == s.drop_last()[j]);
                }
            }
        }
    }
}

/// Non-members get no permission at all; owners and instance admins get every
/// permission, whatever the overwrites say.
pub proof fn lemma_membership_extremes(i: PermissionInputs, p: Permissions)
    ensures
        i.membership == Membership::NotMember ==> resolved(i) == 0,
        i.membership == Membership::Owner || i.membership == Membership::InstanceAdmin ==> Permissions(
            resolved(i),
        ).spec_contains(p),
{
    let x = p.0;
    assert(0xffff_ffff_ffff_ffffu64 & x == x) by (bit_vector);
}

/// A member whose `@everyone` or role permissions include ADMINISTRATOR has
/// every permission; no overwrite takes any away.
pub proof fn lemma_admin_ignores_overwrites(i: PermissionInputs, p: Permissions)
    requires
        i.membership == Membership::Member,
        has_bit(i.everyone.0 | or_all(i.roles@), 63),
    ensures
        Permissions(resolved(i)).spec_contains(p),
{
    let x = p.0;
    assert(0xffff_ffff_ffff_ffffu64 & x == x) by (bit_vector);
}

/// For a member without ADMINISTRATOR the channel tier overrides the category
/// tier, which overrides the base permissions: bit `k` is what the channel tier
/// says if it mentions `k`, else what the category tier says, else the base.
pub proof fn lemma_channel_over_category(i: PermissionInputs, k: u64)
    requires
        k < 64,
        i.membership == Membership::Member,
        !has_bit(i.everyone.0 | or_all(i.roles@), 63),
    ensures
        has_bit(resolved(i), k) == match tier_decides(i.channel_everyone, i.channel_roles@, i.channel_member, k) {
            Some(b) => b,
            None => match tier_decides(i.category_everyone, i.category_roles@, i.category_member, k) {
                Some(b) => b,
                None => has_bit(i.everyone.0 | or_all(i.roles@), k),
            },
        },
{
    let base = i.everyone.0 | or_all(i.roles@);
    let c = tier(base, i.category_everyone, i.category_roles@, i.category_member);
    lemma_tier_precedence(base, i.category_everyone, i.category_roles@, i.category_member, k);
    lemma_tier_precedence(c, i.channel_everyone, i.channel_roles@, i.channel_member, k);
}

} // verus!
