//! Typed requests for every operation (lock, unlock, rotate, verify, status,
//! stream, batch), identities and recipients, and recipient groups with
//! authority tiers.  Paths are held as strings.
use vstd::prelude::*;
use crate::config::{AgeConfig, OutputFormat};
use crate::text::{ascii_lowercase, ascii_uppercase, is_ascii_text, kv_find, kv_get, kv_set, views};

verus! {

/// Options shared by all requests.
#[derive(Debug)]
pub struct CommonOptions {
    pub verbose: bool,
    pub quiet: bool,
    pub dry_run: bool,
    pub force: bool,
    pub config: Option<AgeConfig>,
}

impl CommonOptions {
    /// Everything off, no configuration override.
    pub fn default() -> (c: Self)
        ensures
            !c.verbose && !c.quiet && !c.dry_run && !c.force,
            c.config is None,
    {
        CommonOptions { verbose: false, quiet: false, dry_run: false, force: false, config: None }
    }
}

/// What a file is encrypted or decrypted with.
#[derive(Debug)]
pub enum Identity {
    Passphrase(String),
    IdentityFile(String),
    SshKey(String),
    PromptPassphrase,
}

/// An identity as plain values.
pub enum IdentityModel {
    Passphrase(Seq<char>),
    IdentityFile(Seq<char>),
    SshKey(Seq<char>),
    PromptPassphrase,
}

impl Identity {
    pub open spec fn model(self) -> IdentityModel {
        match self {
            Identity::Passphrase(p) => IdentityModel::Passphrase(p@),
            Identity::IdentityFile(p) => IdentityModel::IdentityFile(p@),
            Identity::SshKey(p) => IdentityModel::SshKey(p@),
            Identity::PromptPassphrase => IdentityModel::PromptPassphrase,
        }
    }
}

/// Whom a file is encrypted to.
#[derive(Debug)]
pub enum Recipient {
    PublicKey(String),
    MultipleKeys(Vec<String>),
    RecipientsFile(String),
    SshRecipients(Vec<String>),
    SelfRecipient,
}

/// A tier of the X/M/R/I/D authority hierarchy.
#[derive(PartialEq, Eq, Structural, Clone, Copy, Debug, Hash)]
pub enum AuthorityTier {
    Skull,
    Master,
    Repository,
    Ignition,
    Distro,
}

/// The letter of a tier.
pub open spec fn tier_letter(t: AuthorityTier) -> Seq<char> {
    match t {
        AuthorityTier::Skull => "X"@,
        AuthorityTier::Master => "M"@,
        AuthorityTier::Repository => "R"@,
        AuthorityTier::Ignition => "I"@,
        AuthorityTier::Distro => "D"@,
    }
}

/// The tier of an uppercased letter.
pub open spec fn tier_of(s: Seq<char>) -> Option<AuthorityTier> {
    if s == "X"@ {
        Some(AuthorityTier::Skull)
    } else if s == "M"@ {
        Some(AuthorityTier::Master)
    } else if s == "R"@ {
        Some(AuthorityTier::Repository)
    } else if s == "I"@ {
        Some(AuthorityTier::Ignition)
    } else if s == "D"@ {
        Some(AuthorityTier::Distro)
    } else {
        None
    }
}

impl AuthorityTier {
    /// The tier's letter.
    pub fn as_str(&self) -> (r: &'static str)
        ensures
            r@ == tier_letter(*self),
    {
        match self {
            AuthorityTier::Skull => "X",
            AuthorityTier::Master => "M",
            AuthorityTier::Repository => "R",
            AuthorityTier::Ignition => "I",
            AuthorityTier::Distro => "D",
        }
    }

    /// The tier of a letter, in either case.
    pub fn from_str(s: &str) -> (r: Option<Self>)
        ensures
            r == tier_of(crate::text::uppercase(s@)),
            is_ascii_text(s@) ==> r == tier_of(ascii_uppercase(s@)),
    {
        let u = crate::text::to_uppercase(s);
        let us = u.as_str();
        if crate::text::str_eq(us, "X") {
            Some(AuthorityTier::Skull)
        } else if crate::text::str_eq(us, "M") {
            Some(AuthorityTier::Master)
        } else if crate::text::str_eq(us, "R") {
            Some(AuthorityTier::Repository)
        } else if crate::text::str_eq(us, "I") {
            Some(AuthorityTier::Ignition)
        } else if crate::text::str_eq(us, "D") {
            Some(AuthorityTier::Distro)
        } else {
            None
        }
    }
}

/// The recipients `rs` after adding `x`: unchanged if `x` is among them,
/// else with `x` appended.
pub open spec fn added_to(rs: Seq<Seq<char>>, x: Seq<char>) -> Seq<Seq<char>> {
    if rs.contains(x) {
        rs
    } else {
        rs.push(x)
    }
}

/// The recipients `rs` after removing `x`: without its first occurrence,
/// the others in their order.
pub open spec fn removed_from(rs: Seq<Seq<char>>, x: Seq<char>) -> Seq<Seq<char>> {
    if rs.contains(x) {
        rs.remove(rs.index_of_first(x)->0)
    } else {
        rs
    }
}

/// Law: the recipients of a group stay distinct under adding and removing;
/// a removed recipient is gone, the group one shorter exactly when it was
/// there, and adding then removing a recipient that was not there leaves
/// the recipients as they were.
pub proof fn lemma_group_recipients_distinct(rs: Seq<Seq<char>>, x: Seq<char>)
    requires
        rs.no_duplicates(),
    ensures
        added_to(rs, x).no_duplicates(),
        added_to(rs, x).contains(x),
        removed_from(rs, x).no_duplicates(),
        !removed_from(rs, x).contains(x),
        removed_from(rs, x).len() == rs.len() - (if rs.contains(x) { 1int } else { 0int }),
        !rs.contains(x) ==> removed_from(added_to(rs, x), x) == rs,
{
    let a = added_to(rs, x);
    if !rs.contains(x) {
        assert(a[rs.len() as int] == x);
        assert forall|i: int, j: int| 0 <= i < a.len() && 0 <= j < a.len() && i != j implies a[i] != a[j] by {
            if i < rs.len() && j < rs.len() {
            } else if i < rs.len() {
                assert(rs.contains(rs[i]));
            } else {
                assert(rs.contains(rs[j]));
            }
        }
        a.index_of_first_ensures(x);
        let k = a.index_of_first(x)->0;
        if k < rs.len() {
            assert(rs.contains(rs[k]));
        }
        assert(k == rs.len());
        assert(a.remove(k) =~= rs);
    } else {
        assert(a.contains(x));
    }
    if rs.contains(x) {
        rs.index_of_first_ensures(x);
        let k = rs.index_of_first(x)->0;
        let r = rs.remove(k);
        assert forall|i: int| 0 <= i < r.len() implies r[i] != x by {
            if i < k {
                assert(r[i] == rs[i]);
            } else {
                assert(r[i] == rs[i + 1]);
            }
        }
        assert forall|i: int, j: int| 0 <= i < r.len() && 0 <= j < r.len() && i != j implies r[i] != r[j] by {
            let ii = if i < k { i } else { i + 1 };
            let jj = if j < k { j } else { j + 1 };
            assert(r[i] == rs[ii]);
            assert(r[j] == rs[jj]);
        }
    }
}

/// Law: the tiers' letters are `X` (skull), `M` (master), `R` (repository),
/// `I` (ignition) and `D` (distro).
pub proof fn lemma_tier_letters()
    ensures
        tier_letter(AuthorityTier::Skull) == seq!['X'],
        tier_letter(AuthorityTier::Master) == seq!['M'],
        tier_letter(AuthorityTier::Repository) == seq!['R'],
        tier_letter(AuthorityTier::Ignition) == seq!['I'],
        tier_letter(AuthorityTier::Distro) == seq!['D'],
{
    reveal_strlit("X");
    reveal_strlit("M");
    reveal_strlit("R");
    reveal_strlit("I");
    reveal_strlit("D");
    assert("X"@ =~= seq!['X']);
    assert("M"@ =~= seq!['M']);
    assert("R"@ =~= seq!['R']);
    assert("I"@ =~= seq!['I']);
    assert("D"@ =~= seq!['D']);
}

/// Law: a tier's letter reads back as the tier, written in either case;
/// the letters are ASCII, so `from_str` reads them by the ASCII case
/// mapping.
pub proof fn lemma_tier_letter_roundtrip(t: AuthorityTier)
    ensures
        is_ascii_text(tier_letter(t)),
        is_ascii_text(ascii_lowercase(tier_letter(t))),
        tier_of(ascii_uppercase(tier_letter(t))) == Some(t),
        tier_of(ascii_uppercase(ascii_lowercase(tier_letter(t)))) == Some(t),
{
    reveal_strlit("X");
    reveal_strlit("M");
    reveal_strlit("R");
    reveal_strlit("I");
    reveal_strlit("D");
    let l = tier_letter(t);
    assert(l.len() == 1);
    assert(ascii_uppercase(l) =~= l);
    let lo = ascii_lowercase(l);
    assert(lo.len() == 1);
    assert((lo[0] as u32) < 128);
    assert(ascii_uppercase(lo) =~= l);
    if t != AuthorityTier::Skull {
        assert(l[0] != 'X');
        assert(l != "X"@);
    }
    if t != AuthorityTier::Master {
        assert(l[0] != 'M');
        assert(l != "M"@);
    }
    if t != AuthorityTier::Repository {
        assert(l[0] != 'R');
        assert(l != "R"@);
    }
    if t != AuthorityTier::Ignition {
        assert(l[0] != 'I');
        assert(l != "I"@);
    }
}

/// Recipients that share a name, an optional tier and metadata.
#[derive(Debug)]
pub struct RecipientGroup {
    pub name: String,
    pub recipients: Vec<String>,
    pub tier: Option<AuthorityTier>,
    pub metadata: Vec<(String, String)>,
}

/// The hash of a group: the MD5 digest, in lowercase hexadecimal, of its
/// recipients in order joined by commas.
pub open spec fn group_hash_spec(recipients: Seq<Seq<char>>) -> Seq<char> {
    crate::digest::hex_spec(
        crate::digest::md5_of_text(
            crate::text::join_spec(recipients.sort_by(crate::order::lex_leq()), ","@),
        ),
    )
}

impl RecipientGroup {
    /// An empty group without tier.
    pub fn new(name: String) -> (g: Self)
        ensures
            g.name == name,
            g.recipients@.len() == 0,
            g.tier is None,
            g.metadata@.len() == 0,
    {
        RecipientGroup { name, recipients: Vec::new(), tier: None, metadata: Vec::new() }
    }

    /// An empty group of a tier.
    pub fn with_tier(name: String, tier: AuthorityTier) -> (g: Self)
        ensures
            g.name == name,
            g.recipients@.len() == 0,
            g.tier == Some(tier),
            g.metadata@.len() == 0,
    {
        let mut group = Self::new(name);
        group.tier = Some(tier);
        group
    }

    /// Adds a recipient that is not yet in the group.
    pub fn add_recipient(&mut self, recipient: String)
        ensures
            views(old(self).recipients@).contains(recipient@) ==> final(self).recipients@ == old(
                self,
            ).recipients@,
            !views(old(self).recipients@).contains(recipient@) ==> final(self).recipients@ == old(
                self,
            ).recipients@.push(recipient),
            views(final(self).recipients@) == added_to(views(old(self).recipients@), recipient@),
            final(self).name == old(self).name,
            final(self).tier == old(self).tier,
            final(self).metadata == old(self).metadata,
    {
        let ghost before = self.recipients@;
        let ghost x = recipient@;
        if !contains_string(&self.recipients, recipient.as_str()) {
            self.recipients.push(recipient);
            assert(views(self.recipients@) =~= views(before).push(x));
        }
    }

    /// Removes the first occurrence of a recipient; whether there was one.
    pub fn remove_recipient(&mut self, recipient: &str) -> (r: bool)
        ensures
            r == views(old(self).recipients@).contains(recipient@),
            r ==> final(self).recipients@ == old(self).recipients@.remove(
                views(old(self).recipients@).index_of_first(recipient@)->0,
            ),
            !r ==> final(self).recipients@ == old(self).recipients@,
            views(final(self).recipients@) == removed_from(views(old(self).recipients@), recipient@),
            final(self).name == old(self).name,
            final(self).tier == old(self).tier,
            final(self).metadata == old(self).metadata,
    {
        let ghost before = self.recipients@;
        match position_of(&self.recipients, recipient) {
            Some(pos) => {
                self.recipients.remove(pos);
                assert(views(self.recipients@) =~= views(before).remove(pos as int));
                true
            },
            None => false,
        }
    }

    /// Whether the group holds a recipient.
    pub fn contains_recipient(&self, recipient: &str) -> (r: bool)
        ensures
            r == views(self.recipients@).contains(recipient@),
    {
        contains_string(&self.recipients, recipient)
    }

    /// Number of recipients.
    pub fn len(&self) -> (r: usize)
        ensures
            r == self.recipients@.len(),
    {
        self.recipients.len()
    }

    /// Whether the group has no recipient.
    pub fn is_empty(&self) -> (r: bool)
        ensures
            r == (self.recipients@.len() == 0),
    {
        self.recipients.len() == 0
    }

    /// Sets or clears the tier.
    pub fn set_tier(&mut self, tier: Option<AuthorityTier>)
        ensures
            final(self).tier == tier,
            final(self).name == old(self).name,
            final(self).recipients == old(self).recipients,
            final(self).metadata == old(self).metadata,
    {
        self.tier = tier;
    }

    /// The hash of the group for audit logs: independent of the order in
    /// which recipients were added.
    pub fn group_hash(&self) -> (r: String)
        ensures
            r@ == group_hash_spec(views(self.recipients@)),
    {
        let sorted = crate::order::sort_strings(&self.recipients);
        let joined = crate::text::join(&sorted, ",");
        crate::digest::md5_hex(joined.as_str())
    }

    /// Sets a metadata field.
    pub fn set_metadata(&mut self, key: String, value: String)
        ensures
            kv_get(final(self).metadata@, key@) == Some(value@),
            forall|k: Seq<char>| k != key@ ==> kv_get(final(self).metadata@, k) == kv_get(
                old(self).metadata@,
                k,
            ),
            final(self).name == old(self).name,
            final(self).recipients == old(self).recipients,
            final(self).tier == old(self).tier,
    {
        kv_set(&mut self.metadata, key.as_str(), value);
    }

    /// A metadata field.
    pub fn get_metadata(&self, key: &str) -> (r: Option<&String>)
        ensures
            match r {
                Some(v) => kv_get(self.metadata@, key@) == Some(v@),
                None => kv_get(self.metadata@, key@) is None,
            },
    {
        kv_find(&self.metadata, key)
    }
}

/// Law: the group hash depends only on which recipients a group holds, not on
/// the order in which they were added.
pub proof fn lemma_group_hash_order_independent(a: Seq<Seq<char>>, b: Seq<Seq<char>>)
    requires
        a.to_multiset() == b.to_multiset(),
    ensures
        group_hash_spec(a) == group_hash_spec(b),
{
    crate::order::lemma_sort_order_independent(a, b);
}

/// Whether `v` holds `s`.
pub fn contains_string(v: &Vec<String>, s: &str) -> (r: bool)
    ensures
        r == views(v@).contains(s@),
{
    match position_of(v, s) {
        Some(_) => true,
        None => false,
    }
}

/// The index of the first occurrence of `s` in `v`.
pub fn position_of(v: &Vec<String>, s: &str) -> (r: Option<usize>)
    ensures
        match r {
            Some(i) => i < v.len() && views(v@).contains(s@) && views(v@).index_of_first(s@) == Some(i as int),
            None => !views(v@).contains(s@),
        },
{
    let mut i: usize = 0;
    while i < v.len()
        invariant
            i <= v.len(),
            forall|j: int| 0 <= j < i ==> views(v@)[j] != s@,
        decreases v.len() - i,
    {
        if crate::text::str_eq(v[i].as_str(), s) {
            proof {
                let vs = views(v@);
                assert(vs[i as int] == s@);
                assert(vs.contains(s@));
                vs.index_of_first_ensures(s@);
                let k = vs.index_of_first(s@)->0;
                if k < i {
                    assert(vs[k] != s@);
                } else if k > i {
                    assert(vs[i as int] != s@);
                }
            }
            return Some(i);
        }
        i = i + 1;
    }
    None
}

/// Several groups of recipients.
#[derive(Debug)]
pub struct MultiRecipientConfig {
    pub primary_group: Option<RecipientGroup>,
    pub additional_groups: Vec<RecipientGroup>,
    pub validate_authority: bool,
    pub enforce_hierarchy: bool,
}

/// `acc` extended by those of `xs` not already in it, in order.
pub open spec fn add_unique(acc: Seq<Seq<char>>, xs: Seq<Seq<char>>) -> Seq<Seq<char>>
    decreases xs.len(),
{
    if xs.len() == 0 {
        acc
    } else {
        let a = add_unique(acc, xs.drop_last());
        if a.contains(xs.last()) {
            a
        } else {
            a.push(xs.last())
        }
    }
}

/// The recipients of the additional groups added, group by group, to `acc`.
pub open spec fn add_groups(acc: Seq<Seq<char>>, groups: Seq<RecipientGroup>) -> Seq<Seq<char>>
    decreases groups.len(),
{
    if groups.len() == 0 {
        acc
    } else {
        add_unique(add_groups(acc, groups.drop_last()), views(groups.last().recipients@))
    }
}

/// All recipients: those of the primary group as they are, then those of the
/// additional groups that are not yet listed.
pub open spec fn flatten_spec(c: MultiRecipientConfig) -> Seq<Seq<char>> {
    let start = match c.primary_group {
        Some(g) => views(g.recipients@),
        None => Seq::empty(),
    };
    add_groups(start, c.additional_groups@)
}

impl MultiRecipientConfig {
    /// No groups; no authority validation or hierarchy enforcement.
    pub fn new() -> (c: Self)
        ensures
            c.primary_group is None,
            c.additional_groups@.len() == 0,
            !c.validate_authority,
            !c.enforce_hierarchy,
    {
        MultiRecipientConfig {
            primary_group: None,
            additional_groups: Vec::new(),
            validate_authority: false,
            enforce_hierarchy: false,
        }
    }

    /// No groups; no authority validation or hierarchy enforcement.
    pub fn default() -> (c: Self)
        ensures
            c.primary_group is None,
            c.additional_groups@.len() == 0,
            !c.validate_authority,
            !c.enforce_hierarchy,
    {
        Self::new()
    }

    /// Sets the primary group.
    pub fn with_primary_group(self, group: RecipientGroup) -> (c: Self)
        ensures
            c == (MultiRecipientConfig { primary_group: Some(group), ..self }),
    {
        MultiRecipientConfig { primary_group: Some(group), ..self }
    }

    /// Adds a group.
    pub fn add_group(self, group: RecipientGroup) -> (c: Self)
        ensures
            c.additional_groups@ == self.additional_groups@.push(group),
            c.primary_group == self.primary_group,
            c.validate_authority == self.validate_authority,
            c.enforce_hierarchy == self.enforce_hierarchy,
    {
        let mut c = self;
        c.additional_groups.push(group);
        c
    }

    /// Turns authority validation on or off.
    pub fn with_authority_validation(self, enabled: bool) -> (c: Self)
        ensures
            c == (MultiRecipientConfig { validate_authority: enabled, ..self }),
    {
        MultiRecipientConfig { validate_authority: enabled, ..self }
    }

    /// Turns hierarchy enforcement on or off.
    pub fn with_hierarchy_enforcement(self, enabled: bool) -> (c: Self)
        ensures
            c == (MultiRecipientConfig { enforce_hierarchy: enabled, ..self }),
    {
        MultiRecipientConfig { enforce_hierarchy: enabled, ..self }
    }

    /// All recipients, each additional one once.
    pub fn flatten_recipients(&self) -> (r: Vec<String>)
        ensures
            views(r@) == flatten_spec(*self),
    {
        let mut all: Vec<String> = Vec::new();
        match &self.primary_group {
            Some(primary) => {
                let mut i: usize = 0;
                while i < primary.recipients.len()
                    invariant
                        i <= primary.recipients.len(),
                        views(all@) == views(primary.recipients@).take(i as int),
                    decreases primary.recipients.len() - i,
                {
                    let ghost before = views(all@);
                    all.push(primary.recipients[i].clone());
                    assert(views(all@) =~= before.push(primary.recipients@[i as int]@));
                    i = i + 1;
                    assert(views(all@) =~= views(primary.recipients@).take(i as int));
                }
                assert(views(primary.recipients@).take(primary.recipients.len() as int) =~= views(
                    primary.recipients@,
                ));
            },
            None => {
                assert(views(all@) =~= Seq::<Seq<char>>::empty());
            },
        }
        let ghost start = views(all@);
        let mut g: usize = 0;
        assert(self.additional_groups@.take(0) =~= Seq::<RecipientGroup>::empty());
        while g < self.additional_groups.len()
            invariant
                g <= self.additional_groups.len(),
                views(all@) == add_groups(start, self.additional_groups@.take(g as int)),
            decreases self.additional_groups.len() - g,
        {
            let group = &self.additional_groups[g];
            let ghost base = views(all@);
            let mut i: usize = 0;
            assert(views(group.recipients@).take(0) =~= Seq::<Seq<char>>::empty());
            while i < group.recipients.len()
                invariant
                    i <= group.recipients.len(),
                    views(all@) == add_unique(base, views(group.recipients@).take(i as int)),
                decreases group.recipients.len() - i,
            {
                let rec = &group.recipients[i];
                proof {
                    assert(views(group.recipients@).take(i + 1).drop_last() =~= views(
                        group.recipients@,
                    ).take(i as int));
                }
                if !contains_string(&all, rec.as_str()) {
                    all.push(rec.clone());
                    assert(views(all@) =~= add_unique(base, views(group.recipients@).take(i as int)).push(rec@));
                }
                i = i + 1;
            }
            proof {
                assert(views(group.recipients@).take(group.recipients.len() as int) =~= views(
                    group.recipients@,
                ));
                assert(self.additional_groups@.take(g + 1).drop_last() =~= self.additional_groups@.take(
                    g as int,
                ));
            }
            g = g + 1;
        }
        assert(self.additional_groups@.take(self.additional_groups.len() as int)
            =~= self.additional_groups@);
        all
    }

    /// Number of recipients over all groups, each additional one once.
    pub fn total_recipients(&self) -> (r: usize)
        ensures
            r == flatten_spec(*self).len(),
    {
        self.flatten_recipients().len()
    }

    /// All groups: the primary one first.
    pub fn all_groups(&self) -> (r: Vec<&RecipientGroup>)
        ensures
            r@.len() == self.additional_groups@.len() + if self.primary_group is Some { 1int } else { 0int },
            self.primary_group is Some ==> *r@[0] == self.primary_group->0,
            forall|i: int| 0 <= i < self.additional_groups@.len() ==> *r@[i + if self.primary_group is Some { 1int } else { 0int }] == #[trigger] self.additional_groups@[i],
    {
        let mut groups: Vec<&RecipientGroup> = Vec::new();
        match &self.primary_group {
            Some(p) => {
                groups.push(p);
            },
            None => {},
        }
        let off: usize = groups.len();
        let mut i: usize = 0;
        while i < self.additional_groups.len()
            invariant
                i <= self.additional_groups.len(),
                off == (if self.primary_group is Some { 1usize } else { 0usize }),
                groups@.len() == off + i,
                self.primary_group is Some ==> *groups@[0] == self.primary_group->0,
                forall|j: int| 0 <= j < i ==> *groups@[j + off] == #[trigger] self.additional_groups@[j],
            decreases self.additional_groups.len() - i,
        {
            groups.push(&self.additional_groups[i]);
            i = i + 1;
        }
        groups
    }
}

/// Law: flattening keeps every recipient of every group, and when the primary
/// group has no repeated recipient the flattened list has none either.
pub proof fn lemma_flatten_complete(c: MultiRecipientConfig)
    ensures
        forall|gi: int, ri: int|
            0 <= gi < c.additional_groups@.len() && 0 <= ri < c.additional_groups@[gi].recipients@.len()
                ==> flatten_spec(c).contains(#[trigger] c.additional_groups@[gi].recipients@[ri]@),
        c.primary_group is Some ==> forall|ri: int|
            0 <= ri < c.primary_group->0.recipients@.len() ==> flatten_spec(c).contains(
                #[trigger] c.primary_group->0.recipients@[ri]@,
            ),
        (match c.primary_group {
            Some(g) => views(g.recipients@).no_duplicates(),
            None => true,
        }) ==> flatten_spec(c).no_duplicates(),
{
    let start = match c.primary_group {
        Some(g) => views(g.recipients@),
        None => Seq::empty(),
    };
    lemma_add_groups(start, c.additional_groups@);
    if c.primary_group is Some {
        let g = c.primary_group->0;
        assert forall|ri: int| 0 <= ri < g.recipients@.len() implies flatten_spec(c).contains(
            #[trigger] g.recipients@[ri]@,
        ) by {
            assert(start[ri] == g.recipients@[ri]@);
            assert(start.contains(start[ri]));
        }
    }
    assert forall|gi: int, ri: int|
        0 <= gi < c.additional_groups@.len() && 0 <= ri < c.additional_groups@[gi].recipients@.len()
            implies flatten_spec(c).contains(#[trigger] c.additional_groups@[gi].recipients@[ri]@) by {
        assert(views(c.additional_groups@[gi].recipients@)[ri] == c.additional_groups@[gi].recipients@[ri]@);
    }
}

proof fn lemma_push_contains(a: Seq<Seq<char>>, y: Seq<char>, x: Seq<char>)
    requires
        a.contains(x),
    ensures
        a.push(y).contains(x),
{
    let k = choose|k: int| 0 <= k < a.len() && a[k] == x;
    assert(a.push(y)[k] == x);
}

proof fn lemma_add_unique(acc: Seq<Seq<char>>, xs: Seq<Seq<char>>)
    ensures
        forall|x: Seq<char>| acc.contains(x) ==> add_unique(acc, xs).contains(x),
        forall|i: int| 0 <= i < xs.len() ==> add_unique(acc, xs).contains(#[trigger] xs[i]),
        acc.no_duplicates() ==> add_unique(acc, xs).no_duplicates(),
    decreases xs.len(),
{
    if xs.len() > 0 {
        let p = xs.drop_last();
        lemma_add_unique(acc, p);
        let a = add_unique(acc, p);
        assert forall|i: int| 0 <= i < xs.len() implies add_unique(acc, xs).contains(#[trigger] xs[i]) by {
            if i < xs.len() - 1 {
                assert(p[i] == xs[i]);
                assert(a.contains(p[i]));
                if !a.contains(xs.last()) {
                    lemma_push_contains(a, xs.last(), xs[i]);
                }
            } else {
                if !a.contains(xs.last()) {
                    assert(a.push(xs.last())[a.len() as int] == xs.last());
                }
            }
        }
        assert forall|x: Seq<char>| a.contains(x) implies add_unique(acc, xs).contains(x) by {
            if !a.contains(xs.last()) {
                lemma_push_contains(a, xs.last(), x);
            }
        }
        if acc.no_duplicates() && !a.contains(xs.last()) {
            let b = a.push(xs.last());
            assert forall|i: int, j: int| 0 <= i < b.len() && 0 <= j < b.len() && i != j implies b[i] != b[j] by {
                if i < a.len() && j < a.len() {
                } else if i == a.len() {
                    assert(b[i] == xs.last());
                    assert(a[j] == b[j]);
                } else {
                    assert(b[j] == xs.last());
                    assert(a[i] == b[i]);
                }
            }
        }
    }
}

proof fn lemma_add_groups(acc: Seq<Seq<char>>, groups: Seq<RecipientGroup>)
    ensures
        forall|x: Seq<char>| acc.contains(x) ==> add_groups(acc, groups).contains(x),
        forall|gi: int, ri: int|
            0 <= gi < groups.len() && 0 <= ri < groups[gi].recipients@.len() ==> add_groups(acc, groups).contains(
                #[trigger] views(groups[gi].recipients@)[ri],
            ),
        acc.no_duplicates() ==> add_groups(acc, groups).no_duplicates(),
    decreases groups.len(),
{
    if groups.len() > 0 {
        let p = groups.drop_last();
        lemma_add_groups(acc, p);
        let a = add_groups(acc, p);
        lemma_add_unique(a, views(groups.last().recipients@));
        assert forall|gi: int, ri: int|
            0 <= gi < groups.len() && 0 <= ri < groups[gi].recipients@.len() implies add_groups(acc, groups).contains(
                #[trigger] views(groups[gi].recipients@)[ri],
            ) by {
            if gi < groups.len() - 1 {
                assert(p[gi] == groups[gi]);
                assert(a.contains(views(p[gi].recipients@)[ri]));
            }
        }
    }
}

/// A request to encrypt a file or directory.
#[derive(Debug)]
pub struct LockRequest {
    pub target: String,
    pub identity: Identity,
    pub recipients: Option<Vec<Recipient>>,
    pub multi_recipient_config: Option<MultiRecipientConfig>,
    pub format: OutputFormat,
    pub recursive: bool,
    pub pattern: Option<String>,
    pub backup: bool,
    pub backup_dir: Option<String>,
    pub in_place: bool,
    pub common: CommonOptions,
}

impl LockRequest {
    /// Encrypt `target` with `identity`: binary output, not recursive, with a
    /// backup, not in place.
    pub fn new(target: String, identity: Identity) -> (r: Self)
        ensures
            r.target == target,
            r.identity == identity,
            r.recipients is None,
            r.multi_recipient_config is None,
            r.format == OutputFormat::Binary,
            !r.recursive,
            r.pattern is None,
            r.backup,
            r.backup_dir is None,
            !r.in_place,
            !r.common.verbose && !r.common.quiet && !r.common.dry_run && !r.common.force,
            r.common.config is None,
    {
        LockRequest {
            target,
            identity,
            recipients: None,
            multi_recipient_config: None,
            format: OutputFormat::Binary,
            recursive: false,
            pattern: None,
            backup: true,
            backup_dir: None,
            in_place: false,
            common: CommonOptions::default(),
        }
    }

    /// Sets the recipients.
    pub fn with_recipients(self, recipients: Vec<Recipient>) -> (r: Self)
        ensures
            r == (LockRequest { recipients: Some(recipients), ..self }),
    {
        LockRequest { recipients: Some(recipients), ..self }
    }

    /// Sets the recipient groups.
    pub fn with_multi_recipient_config(self, config: MultiRecipientConfig) -> (r: Self)
        ensures
            r == (LockRequest { multi_recipient_config: Some(config), ..self }),
    {
        LockRequest { multi_recipient_config: Some(config), ..self }
    }

    /// Turns recursion on or off.
    pub fn recursive(self, enabled: bool) -> (r: Self)
        ensures
            r == (LockRequest { recursive: enabled, ..self }),
    {
        LockRequest { recursive: enabled, ..self }
    }

    /// Sets the file pattern.
    pub fn with_pattern(self, pattern: String) -> (r: Self)
        ensures
            r == (LockRequest { pattern: Some(pattern), ..self }),
    {
        LockRequest { pattern: Some(pattern), ..self }
    }

    /// Sets the output format.
    pub fn with_format(self, format: OutputFormat) -> (r: Self)
        ensures
            r == (LockRequest { format, ..self }),
    {
        LockRequest { format, ..self }
    }
}

/// A request to decrypt a file or directory.
#[derive(Debug)]
pub struct UnlockRequest {
    pub target: String,
    pub identity: Identity,
    pub recursive: bool,
    pub pattern: Option<String>,
    pub verify_first: bool,
    pub selective: bool,
    pub preserve_encrypted: bool,
    pub in_place: bool,
    pub common: CommonOptions,
}

impl UnlockRequest {
    /// Decrypt `target` with `identity`: verify first, not recursive, not
    /// selective, not preserving the encrypted file, not in place.
    pub fn new(target: String, identity: Identity) -> (r: Self)
        ensures
            r.target == target,
            r.identity == identity,
            !r.recursive,
            r.pattern is None,
            r.verify_first,
            !r.selective,
            !r.preserve_encrypted,
            !r.in_place,
            !r.common.verbose && !r.common.quiet && !r.common.dry_run && !r.common.force,
            r.common.config is None,
    {
        UnlockRequest {
            target,
            identity,
            recursive: false,
            pattern: None,
            verify_first: true,
            selective: false,
            preserve_encrypted: false,
            in_place: false,
            common: CommonOptions::default(),
        }
    }

    /// Turns recursion on or off.
    pub fn recursive(self, enabled: bool) -> (r: Self)
        ensures
            r == (UnlockRequest { recursive: enabled, ..self }),
    {
        UnlockRequest { recursive: enabled, ..self }
    }

    /// Turns selective unlocking on or off.
    pub fn selective(self, enabled: bool) -> (r: Self)
        ensures
            r == (UnlockRequest { selective: enabled, ..self }),
    {
        UnlockRequest { selective: enabled, ..self }
    }

    /// Keeps or removes the encrypted file.
    pub fn preserve_encrypted(self, enabled: bool) -> (r: Self)
        ensures
            r == (UnlockRequest { preserve_encrypted: enabled, ..self }),
    {
        UnlockRequest { preserve_encrypted: enabled, ..self }
    }

    /// Sets the file pattern.
    pub fn with_pattern(self, pattern: String) -> (r: Self)
        ensures
            r == (UnlockRequest { pattern: Some(pattern), ..self }),
    {
        UnlockRequest { pattern: Some(pattern), ..self }
    }
}

/// A request to re-encrypt under a new identity.
#[derive(Debug)]
pub struct RotateRequest {
    pub target: String,
    pub current_identity: Identity,
    pub new_identity: Identity,
    pub new_recipients: Option<Vec<Recipient>>,
    pub recursive: bool,
    pub pattern: Option<String>,
    pub backup: bool,
    pub atomic: bool,
    pub common: CommonOptions,
}

impl RotateRequest {
    /// Rotate `target` from `current` to `new`: with a backup, atomically.
    pub fn new(target: String, current: Identity, new: Identity) -> (r: Self)
        ensures
            r.target == target,
            r.current_identity == current,
            r.new_identity == new,
            r.new_recipients is None,
            !r.recursive,
            r.pattern is None,
            r.backup,
            r.atomic,
            !r.common.verbose && !r.common.quiet && !r.common.dry_run && !r.common.force,
            r.common.config is None,
    {
        RotateRequest {
            target,
            current_identity: current,
            new_identity: new,
            new_recipients: None,
            recursive: false,
            pattern: None,
            backup: true,
            atomic: true,
            common: CommonOptions::default(),
        }
    }

    /// Sets the new recipients.
    pub fn with_new_recipients(self, recipients: Vec<Recipient>) -> (r: Self)
        ensures
            r == (RotateRequest { new_recipients: Some(recipients), ..self }),
    {
        RotateRequest { new_recipients: Some(recipients), ..self }
    }

    /// Turns all-or-nothing rotation on or off.
    pub fn atomic(self, enabled: bool) -> (r: Self)
        ensures
            r == (RotateRequest { atomic: enabled, ..self }),
    {
        RotateRequest { atomic: enabled, ..self }
    }
}

/// How verification results are reported.
#[derive(PartialEq, Eq, Structural, Clone, Copy, Debug)]
pub enum ReportFormat {
    Simple,
    Detailed,
    Json,
    Csv,
}

/// A request to check encrypted files.
#[derive(Debug)]
pub struct VerifyRequest {
    pub target: String,
    pub identity: Option<Identity>,
    pub recursive: bool,
    pub pattern: Option<String>,
    pub deep_verify: bool,
    pub report_format: ReportFormat,
    pub common: CommonOptions,
}

impl VerifyRequest {
    /// Check `target`'s format only, with a simple report.
    pub fn new(target: String) -> (r: Self)
        ensures
            r.target == target,
            r.identity is None,
            !r.recursive,
            r.pattern is None,
            !r.deep_verify,
            r.report_format == ReportFormat::Simple,
            !r.common.verbose && !r.common.quiet && !r.common.dry_run && !r.common.force,
            r.common.config is None,
    {
        VerifyRequest {
            target,
            identity: None,
            recursive: false,
            pattern: None,
            deep_verify: false,
            report_format: ReportFormat::Simple,
            common: CommonOptions::default(),
        }
    }

    /// Also try to decrypt, with `identity`.
    pub fn deep_verify(self, identity: Identity) -> (r: Self)
        ensures
            r == (VerifyRequest { identity: Some(identity), deep_verify: true, ..self }),
    {
        VerifyRequest { identity: Some(identity), deep_verify: true, ..self }
    }

    /// Sets the report format.
    pub fn with_report_format(self, format: ReportFormat) -> (r: Self)
        ensures
            r == (VerifyRequest { report_format: format, ..self }),
    {
        VerifyRequest { report_format: format, ..self }
    }
}

/// A request for the encryption status of a directory.
#[derive(Debug)]
pub struct StatusRequest {
    pub target: String,
    pub recursive: bool,
    pub pattern: Option<String>,
    pub detailed: bool,
    pub report_format: ReportFormat,
    pub common: CommonOptions,
}

impl StatusRequest {
    /// Status of `target`, not recursive, not detailed, simple report.
    pub fn new(target: String) -> (r: Self)
        ensures
            r.target == target,
            !r.recursive,
            r.pattern is None,
            !r.detailed,
            r.report_format == ReportFormat::Simple,
            !r.common.verbose && !r.common.quiet && !r.common.dry_run && !r.common.force,
            r.common.config is None,
    {
        StatusRequest {
            target,
            recursive: false,
            pattern: None,
            detailed: false,
            report_format: ReportFormat::Simple,
            common: CommonOptions::default(),
        }
    }

    /// Turns detail on or off.
    pub fn detailed(self, enabled: bool) -> (r: Self)
        ensures
            r == (StatusRequest { detailed: enabled, ..self }),
    {
        StatusRequest { detailed: enabled, ..self }
    }
}

/// Whether a stream is encrypted or decrypted.
#[derive(PartialEq, Eq, Structural, Clone, Copy, Debug)]
pub enum StreamOperation {
    Encrypt,
    Decrypt,
}

/// A request to encrypt or decrypt a stream.
#[derive(Debug)]
pub struct StreamRequest {
    pub operation: StreamOperation,
    pub identity: Identity,
    pub recipients: Option<Vec<Recipient>>,
    pub format: OutputFormat,
    pub buffer_size: usize,
    pub common: CommonOptions,
}

impl StreamRequest {
    /// Encrypt a stream with `identity`: binary output, 8 KiB buffer.
    pub fn encrypt(identity: Identity) -> (r: Self)
        ensures
            r.operation == StreamOperation::Encrypt,
            r.identity == identity,
            r.recipients is None,
            r.format == OutputFormat::Binary,
            r.buffer_size == 8192,
            !r.common.verbose && !r.common.quiet && !r.common.dry_run && !r.common.force,
            r.common.config is None,
    {
        StreamRequest {
            operation: StreamOperation::Encrypt,
            identity,
            recipients: None,
            format: OutputFormat::Binary,
            buffer_size: 8192,
            common: CommonOptions::default(),
        }
    }

    /// Decrypt a stream with `identity`: 8 KiB buffer.
    pub fn decrypt(identity: Identity) -> (r: Self)
        ensures
            r.operation == StreamOperation::Decrypt,
            r.identity == identity,
            r.recipients is None,
            r.format == OutputFormat::Binary,
            r.buffer_size == 8192,
            !r.common.verbose && !r.common.quiet && !r.common.dry_run && !r.common.force,
            r.common.config is None,
    {
        StreamRequest {
            operation: StreamOperation::Decrypt,
            identity,
            recipients: None,
            format: OutputFormat::Binary,
            buffer_size: 8192,
            common: CommonOptions::default(),
        }
    }
}

/// Whether a batch locks or unlocks.
#[derive(PartialEq, Eq, Structural, Clone, Copy, Debug)]
pub enum BatchOperation {
    Lock,
    Unlock,
}

/// A request to lock or unlock the files of a directory.
#[derive(Debug)]
pub struct BatchRequest {
    pub target: String,
    pub operation: BatchOperation,
    pub identity: Identity,
    pub recipients: Option<Vec<Recipient>>,
    pub pattern: Option<String>,
    pub recursive: bool,
    pub format: OutputFormat,
    pub backup: bool,
    pub preserve_encrypted: bool,
    pub verify_before_unlock: bool,
    pub common: CommonOptions,
}

impl BatchRequest {
    /// A batch over `target`: recursive, binary output, no backup, not
    /// preserving encrypted files, verifying before unlocking.
    pub fn new(target: String, operation: BatchOperation, identity: Identity) -> (r: Self)
        ensures
            r.target == target,
            r.operation == operation,
            r.identity == identity,
            r.recipients is None,
            r.pattern is None,
            r.recursive,
            r.format == OutputFormat::Binary,
            !r.backup,
            !r.preserve_encrypted,
            r.verify_before_unlock,
            !r.common.verbose && !r.common.quiet && !r.common.dry_run && !r.common.force,
            r.common.config is None,
    {
        BatchRequest {
            target,
            operation,
            identity,
            recipients: None,
            pattern: None,
            recursive: true,
            format: OutputFormat::Binary,
            backup: false,
            preserve_encrypted: false,
            verify_before_unlock: true,
            common: CommonOptions::default(),
        }
    }

    /// Sets the recipients.
    pub fn with_recipients(self, recipients: Vec<Recipient>) -> (r: Self)
        ensures
            r == (BatchRequest { recipients: Some(recipients), ..self }),
    {
        BatchRequest { recipients: Some(recipients), ..self }
    }

    /// Sets the file pattern.
    pub fn with_pattern(self, pattern: String) -> (r: Self)
        ensures
            r == (BatchRequest { pattern: Some(pattern), ..self }),
    {
        BatchRequest { pattern: Some(pattern), ..self }
    }

    /// Turns recursion on or off.
    pub fn recursive(self, enabled: bool) -> (r: Self)
        ensures
            r == (BatchRequest { recursive: enabled, ..self }),
    {
        BatchRequest { recursive: enabled, ..self }
    }

    /// Sets the output format.
    pub fn with_format(self, format: OutputFormat) -> (r: Self)
        ensures
            r == (BatchRequest { format, ..self }),
    {
        BatchRequest { format, ..self }
    }

    /// Turns backups on or off.
    pub fn backup(self, enabled: bool) -> (r: Self)
        ensures
            r == (BatchRequest { backup: enabled, ..self }),
    {
        BatchRequest { backup: enabled, ..self }
    }

    /// Keeps or removes encrypted files after unlocking.
    pub fn preserve_encrypted(self, enabled: bool) -> (r: Self)
        ensures
            r == (BatchRequest { preserve_encrypted: enabled, ..self }),
    {
        BatchRequest { preserve_encrypted: enabled, ..self }
    }

    /// Turns verification before unlocking on or off.
    pub fn verify_before_unlock(self, enabled: bool) -> (r: Self)
        ensures
            r == (BatchRequest { verify_before_unlock: enabled, ..self }),
    {
        BatchRequest { verify_before_unlock: enabled, ..self }
    }
}

/// Conversion of parsed command-line arguments into a request; implemented by
/// the command-line front end.
pub trait FromCliArgs {
    type Request;
}

} // verus!
