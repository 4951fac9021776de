use omnidisc::permissions::{resolve, Membership, Overwrite, PermissionInputs, Permissions};

fn base<'a>(membership: Membership, roles: &'a [Permissions]) -> PermissionInputs<'a> {
    PermissionInputs {
        membership,
        everyone: Permissions::default_everyone(),
        roles,
        category_everyone: None,
        category_roles: &[],
        category_member: None,
        channel_everyone: None,
        channel_roles: &[],
        channel_member: None,
    }
}

#[test]
fn non_member_gets_nothing_even_with_channel_allow() {
    let mut i = base(Membership::NotMember, &[]);
    i.channel_everyone = Some(Overwrite {
        allow: Permissions::VIEW_CHANNEL(),
        deny: Permissions::NONE(),
    });
    assert_eq!(resolve(&i), Permissions::NONE());
}

#[test]
fn owner_has_everything() {
    assert!(resolve(&base(Membership::Owner, &[])).contains(Permissions::MANAGE_GUILD()));
}

#[test]
fn channel_member_overwrite_beats_role_deny() {
    let mut i = base(Membership::Member, &[]);
    let channel_roles = [Overwrite {
        allow: Permissions::NONE(),
        deny: Permissions::SEND_MESSAGES(),
    }];
    i.channel_roles = &channel_roles;
    i.channel_member = Some(Overwrite {
        allow: Permissions::SEND_MESSAGES(),
        deny: Permissions::NONE(),
    });
    assert!(resolve(&i).contains(Permissions::SEND_MESSAGES()));
}

#[test]
fn channel_tier_overrides_category_tier() {
    let mut i = base(Membership::Member, &[]);
    i.category_everyone = Some(Overwrite {
        allow: Permissions::NONE(),
        deny: Permissions::VIEW_CHANNEL(),
    });
    i.channel_everyone = Some(Overwrite {
        allow: Permissions::VIEW_CHANNEL(),
        deny: Permissions::NONE(),
    });
    assert!(resolve(&i).contains(Permissions::VIEW_CHANNEL()));
}

#[test]
fn admin_role_ignores_overwrites() {
    let roles = [Permissions::ADMINISTRATOR()];
    let mut i = base(Membership::Member, &roles);
    i.channel_everyone = Some(Overwrite {
        allow: Permissions::NONE(),
        deny: Permissions::VIEW_CHANNEL(),
    });
    assert!(resolve(&i).contains(Permissions::VIEW_CHANNEL()));
}

#[test]
fn instance_admin_has_every_bit() {
    assert_eq!(resolve(&base(Membership::InstanceAdmin, &[])), Permissions(u64::MAX));
}

#[test]
fn role_deny_then_member_allow_in_the_category() {
    let mut i = base(Membership::Member, &[]);
    let category_roles = [Overwrite {
        allow: Permissions::NONE(),
        deny: Permissions::SPEAK(),
    }];
    i.category_roles = &category_roles;
    assert!(!resolve(&i).contains(Permissions::SPEAK()));
    i.category_member = Some(Overwrite {
        allow: Permissions::SPEAK(),
        deny: Permissions::NONE(),
    });
    assert!(resolve(&i).contains(Permissions::SPEAK()));
}

#[test]
fn set_operations_and_names() {
    let p = Permissions::VIEW_CHANNEL() | Permissions::SPEAK();
    assert_eq!(p.bits(), 1 | (1 << 41));
    assert!(p.intersects(Permissions::SPEAK()));
    assert!(!p.intersects(Permissions::STREAM()));
    assert_eq!(p.difference(Permissions::SPEAK()), Permissions::VIEW_CHANNEL());
    assert_eq!(p & Permissions::SPEAK(), Permissions::SPEAK());
    assert_eq!(p.union(Permissions::STREAM()).bits(), p.bits() | Permissions::STREAM().bits());
    assert!(!(!p).contains(Permissions::SPEAK()));
    assert_eq!(p.names(), vec!["VIEW_CHANNEL", "SPEAK"]);
    assert!(Permissions::ADMINISTRATOR().is_admin());
    assert!(!p.is_admin());
    assert_eq!(Permissions::default_everyone().bits(), 0x2_1f00_0b00_00bf);
}
