use chonkit::error::ChonkitError;
use chonkit::provider::{Identity, ProviderFactory};

#[derive(Clone, Debug, PartialEq)]
struct Store {
    id: &'static str,
    version: u32,
}

impl Identity for Store {
    // The verifier's view of the ID: only Verus reads it, nothing calls it at run time.
    fn spec_id(&self) -> vstd::seq::Seq<char> {
        vstd::seq::Seq::empty()
    }

    fn id(&self) -> &'static str {
        self.id
    }
}

#[test]
fn registered_provider_is_found() {
    let mut f = ProviderFactory::default();
    f.register(Store { id: "fs", version: 1 });
    f.register(Store { id: "gdrive", version: 1 });
    assert_eq!(f.get_provider("fs").unwrap(), Store { id: "fs", version: 1 });
    let mut ids = f.list_provider_ids();
    ids.sort();
    assert_eq!(ids, vec!["fs", "gdrive"]);
}

#[test]
fn registering_again_replaces() {
    let mut f = ProviderFactory::default();
    f.register(Store { id: "fs", version: 1 });
    f.register(Store { id: "fs", version: 2 });
    assert_eq!(f.get_provider("fs").unwrap().version, 2);
    assert_eq!(f.list_provider_ids(), vec!["fs"]);
}

#[test]
fn unknown_provider_is_refused() {
    let f: ProviderFactory<Store> = ProviderFactory::default();
    assert!(f.list_provider_ids().is_empty());
    match f.get_provider("qdrant") {
        Err(ChonkitError::InvalidProvider(m)) => assert_eq!(m, "qdrant"),
        other => panic!("unexpected {other:?}"),
    }
}
