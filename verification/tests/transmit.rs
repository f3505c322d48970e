use link_core::nonempty::NonEmptyVec;
use link_core::peer::PeerId;
use link_core::transmit::{
    BuildWantsHaves, FilteredRef, LsRefs, ObjectId, Odb, ParsedInner, ParsedRef, Prefix, RefPrefix,
    Refdb,
};

fn oid(bits: u64) -> ObjectId {
    ObjectId { bits }
}

#[test]
fn unscoped_prefix_is_the_namespace() {
    let p = RefPrefix::from_prefix(None, Prefix::Heads);
    assert_eq!(p.into_bytes(), b"refs/heads/".to_vec());
}

#[test]
fn scoped_prefix_reroots_under_remote_tracking() {
    let peer = PeerId::new(42);
    let p = RefPrefix::from_prefix(Some(&peer), Prefix::Heads);
    assert_eq!(p.into_bytes(), b"refs/remotes/42/heads/".to_vec());
    let p = RefPrefix::from_prefix(Some(&PeerId::new(1048576)), Prefix::Rad);
    assert_eq!(p.into_bytes(), b"refs/remotes/1048576/rad/".to_vec());
}

#[test]
fn prefix_matches_is_starts_with() {
    let p = RefPrefix::from_prefix(None, Prefix::Heads);
    assert!(p.matches(b"refs/heads/main"));
    assert!(p.matches(b"refs/heads/"));
    assert!(!p.matches(b"refs/tags/v1"));
    assert!(!p.matches(b"refs/head"));
}

#[test]
fn ls_refs_from_prefixes() {
    let ne = NonEmptyVec::new(RefPrefix::from_prefix(None, Prefix::Tags));
    match LsRefs::from(ne) {
        LsRefs::Prefix { prefixes } => assert_eq!(prefixes.len(), 1),
        LsRefs::Full => panic!("expected prefixes"),
    }
}

#[test]
fn filtered_ref_defaults_remote_to_advertiser() {
    let advertiser = PeerId::new(9);
    let r: FilteredRef<u8> = FilteredRef::new(
        oid(1),
        &advertiser,
        ParsedRef { remote: None, inner: ParsedInner::Owned(b"heads/main".to_vec()) },
    );
    assert_eq!(*r.remote_id(), advertiser);
    assert_eq!(r.to_remote_tracking(), b"refs/remotes/9/heads/main".to_vec());

    let named = PeerId::new(4);
    let r: FilteredRef<u8> = FilteredRef::new(
        oid(1),
        &advertiser,
        ParsedRef { remote: Some(named), inner: ParsedInner::Owned(b"heads/dev".to_vec()) },
    );
    assert_eq!(*r.remote_id(), named);
    assert_eq!(r.to_remote_tracking(), b"refs/remotes/4/heads/dev".to_vec());
}

#[test]
fn filtered_ref_rad_rendering_and_is() {
    let advertiser = PeerId::new(3);
    let r: FilteredRef<u8> = FilteredRef::new(
        oid(1),
        &advertiser,
        ParsedRef { remote: None, inner: ParsedInner::Rad(2) },
    );
    assert!(r.is(2));
    assert!(!r.is(1));
    assert_eq!(r.to_remote_tracking(), b"refs/remotes/3/rad/2".to_vec());
    assert_eq!(r.to_owned(), b"rad/2".to_vec());
}

#[test]
fn filtered_ref_owned_path() {
    let r: FilteredRef<u8> = FilteredRef::new(
        oid(1),
        &PeerId::new(3),
        ParsedRef { remote: None, inner: ParsedInner::Owned(b"heads/main".to_vec()) },
    );
    assert_eq!(r.to_owned(), b"heads/main".to_vec());
}

/// A ref- and object-database double: a list of (name, id) refs and a set
/// of present objects; configurable names whose lookup fails.
struct MockDb {
    refs: Vec<(Vec<u8>, ObjectId)>,
    present: Vec<ObjectId>,
    broken: Vec<Vec<u8>>,
}

impl Refdb for MockDb {
    type FindError = String;

    fn refname_to_id(&self, name: &Vec<u8>) -> Result<Option<ObjectId>, String> {
        if self.broken.contains(name) {
            return Err(String::from("lookup failed"));
        }
        for (n, id) in &self.refs {
            if n == name {
                return Ok(Some(*id));
            }
        }
        Ok(None)
    }
}

impl Odb for MockDb {
    fn contains(&self, oid: &ObjectId) -> bool {
        self.present.contains(oid)
    }
}

fn filtered(tip: ObjectId, peer: u64, name: &[u8]) -> FilteredRef<u8> {
    FilteredRef::new(
        tip,
        &PeerId::new(peer),
        ParsedRef { remote: None, inner: ParsedInner::Owned(name.to_vec()) },
    )
}

#[test]
fn add_wants_new_tips_and_offers_known_ones() {
    // Ref a: stored at 10, advertised tip 11 not present -> have 10, want 11.
    // Ref b: stored at 20, advertised tip 20 -> have 20, no want.
    // Ref c: unknown name, tip 30 not present -> want 30.
    // Ref d: unknown name, tip 40 already present -> nothing.
    let db = MockDb {
        refs: vec![
            (b"refs/remotes/1/heads/a".to_vec(), oid(10)),
            (b"refs/remotes/1/heads/b".to_vec(), oid(20)),
        ],
        present: vec![oid(40)],
        broken: vec![],
    };
    let refs = vec![
        filtered(oid(11), 1, b"heads/a"),
        filtered(oid(20), 1, b"heads/b"),
        filtered(oid(30), 1, b"heads/c"),
        filtered(oid(40), 1, b"heads/d"),
    ];
    let mut builder = BuildWantsHaves::default();
    builder.add(&db, &refs).expect("no lookup failure");
    let (wants, haves) = builder.build().expect("something to want");
    assert_eq!(wants.into_vec(), vec![oid(11), oid(30)]);
    assert_eq!(haves, vec![oid(10), oid(20)]);
}

#[test]
fn add_stops_at_first_lookup_failure() {
    let db = MockDb {
        refs: vec![(b"refs/remotes/1/heads/a".to_vec(), oid(10))],
        present: vec![],
        broken: vec![b"refs/remotes/1/heads/bad".to_vec()],
    };
    let refs = vec![
        filtered(oid(11), 1, b"heads/a"),
        filtered(oid(12), 1, b"heads/bad"),
        filtered(oid(13), 1, b"heads/c"),
    ];
    let mut builder = BuildWantsHaves::default();
    let err = builder.add(&db, &refs).expect_err("second ref fails");
    assert_eq!(err, "lookup failed");
    // The first ref was already folded in; the third never was.
    let (wants, haves) = builder.build().expect("first ref wanted");
    assert_eq!(wants.into_vec(), vec![oid(11)]);
    assert_eq!(haves, vec![oid(10)]);
}

#[test]
fn build_filters_wants_already_held() {
    let mut builder = BuildWantsHaves::default();
    builder.want(oid(5));
    builder.want(oid(3));
    builder.have(oid(3));
    let (wants, haves) = builder.build().expect("five is missing");
    assert_eq!(wants.into_vec(), vec![oid(5)]);
    assert_eq!(haves, vec![oid(3)]);
}

#[test]
fn build_with_nothing_missing_is_none() {
    let mut builder = BuildWantsHaves::default();
    builder.want(oid(3));
    builder.have(oid(3));
    assert!(builder.build().is_none());
    assert!(BuildWantsHaves::default().build().is_none());
}

#[test]
fn wants_and_haves_deduplicate_and_sort() {
    let mut builder = BuildWantsHaves::default();
    builder.want(oid(9));
    builder.want(oid(2));
    builder.want(oid(9));
    let (wants, haves) = builder.build().expect("wants present");
    assert_eq!(wants.into_vec(), vec![oid(2), oid(9)]);
    assert!(haves.is_empty());
}

#[test]
fn nonempty_vec_basics() {
    let mut ne = NonEmptyVec::new(1u32);
    ne.push(2);
    ne.push(3);
    assert_eq!(ne.len(), 3);
    assert_eq!(*ne.get(0), 1);
    assert_eq!(*ne.get(2), 3);
    assert_eq!(ne.into_vec(), vec![1, 2, 3]);
    assert!(NonEmptyVec::<u32>::from_vec(vec![]).is_none());
    let ne = NonEmptyVec::from_vec(vec![7, 8]).unwrap();
    assert_eq!(ne.into_vec(), vec![7, 8]);
}
