use pba_collator::cli::{select_chain_spec, ChainSpecSelection};

#[test]
fn chain_spec_selection_follows_the_id() {
    assert_eq!(select_chain_spec(""), ChainSpecSelection::Rococo);
    assert_eq!(select_chain_spec("rococo"), ChainSpecSelection::Rococo);
    assert_eq!(select_chain_spec("rococo-staging"), ChainSpecSelection::RococoStaging);
    assert_eq!(select_chain_spec("rococo-local"), ChainSpecSelection::RococoLocal);
    assert_eq!(select_chain_spec("testnet.json"), ChainSpecSelection::JsonPath);
    assert_eq!(select_chain_spec("rococo-"), ChainSpecSelection::JsonPath);
}
