use serde_yaml::Mapping;
use serde_yaml::Value;
use world_id_deployer::args::strip_prefix;
use world_id_deployer::deployment::steps::identity_manager::WorldIdIdentityManagerDeployment;
use world_id_deployer::hex_text::parse_hex;
use world_id_deployer::report::contract_deployment::ContractDeployment;
use world_id_deployer::types::Address;

const ONLY_PROXY_DEPLOYMENT: &str =
    "proxy_deployment:\n  address: '0x0000000000000000000000000000000000000000'\n";

fn read_deployment(value: Option<&Value>) -> Option<ContractDeployment> {
    let text = value?.get("address")?.as_str()?;
    let bytes: [u8; 20] = parse_hex(strip_prefix(text))?.try_into().ok()?;
    Some(ContractDeployment { address: Address(bytes) })
}

fn read_manager(text: &str) -> WorldIdIdentityManagerDeployment {
    let document: Value = serde_yaml::from_str(text).unwrap();
    WorldIdIdentityManagerDeployment {
        impl_v1_deployment: read_deployment(document.get("impl_v1_deployment")),
        impl_v2_deployment: read_deployment(document.get("impl_v2_deployment")),
        proxy_deployment: read_deployment(document.get("proxy_deployment")).unwrap(),
    }
}

fn write_deployment(document: &mut Mapping, name: &str, deployment: Option<ContractDeployment>) {
    if let Some(deployment) = deployment {
        let mut inner = Mapping::new();
        inner.insert(
            Value::String("address".to_string()),
            Value::String(deployment.address.to_string()),
        );
        document.insert(Value::String(name.to_string()), Value::Mapping(inner));
    }
}

fn write_manager(manager: &WorldIdIdentityManagerDeployment) -> String {
    let mut document = Mapping::new();
    write_deployment(&mut document, "impl_v1_deployment", manager.impl_v1_deployment);
    write_deployment(&mut document, "impl_v2_deployment", manager.impl_v2_deployment);
    write_deployment(&mut document, "proxy_deployment", Some(manager.proxy_deployment));
    serde_yaml::to_string(&Value::Mapping(document)).unwrap()
}

#[test]
fn only_proxy() {
    let actual = read_manager(ONLY_PROXY_DEPLOYMENT);

    let expected = WorldIdIdentityManagerDeployment {
        impl_v1_deployment: None,
        impl_v2_deployment: None,
        proxy_deployment: ContractDeployment {
            address: Address::zero(),
        },
    };

    let serialized_actual = write_manager(&actual);

    assert_eq!(actual, expected);
    assert_eq!(serialized_actual, ONLY_PROXY_DEPLOYMENT);
}
