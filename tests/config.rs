use rk_nku_sync::cli::{parse_command_mode, CommandMode};
use rk_nku_sync::config::{ConfigError, DeviceConfig, Parameter};
use rk_nku_sync::menu::{parameter_for_menu_item, ActiveMenuView};
use rk_nku_sync::serial_config::SerialPortConfig;
use rk_nku_sync::user_parameters::{self, DeviceParameters};

fn strings(values: &[&str]) -> Vec<String> {
    values.iter().map(|v| v.to_string()).collect()
}

/// The store that the example schema describes.
fn simple_config() -> DeviceConfig {
    let mut store = DeviceConfig::new();
    let groups: Vec<String> = (0..16).map(|i: u32| i.to_string()).collect();
    store.insert_parameter(
        "groupnumber".to_string(),
        Parameter::new("Group number".to_string(), "0".to_string(), groups),
    );
    store.insert_parameter(
        "soundvolume".to_string(),
        Parameter::new(
            "Sound volume".to_string(),
            "50%".to_string(),
            strings(&["0%", "25%", "50%", "75%", "100%"]),
        ),
    );
    store.insert_parameter(
        "loadcapacity".to_string(),
        Parameter::new(
            "Load capacity".to_string(),
            "630".to_string(),
            strings(&["400", "630", "1000", "1600"]),
        ),
    );
    store.insert_parameter(
        "language".to_string(),
        Parameter::new("Language".to_string(), "ru".to_string(), strings(&["ru", "en"])),
    );
    store
}

#[test]
fn test_io_operations() {
    let mut device_config = simple_config();

    let names = device_config.get_parameters_names().unwrap();

    assert!(names.contains(&"groupnumber".to_string()));

    assert!(device_config
        .set_parameter_value("groupnumber", "19".to_string())
        .is_err());

    assert!(device_config
        .set_parameter_value("groupnumber", "11".to_string())
        .is_ok());

    assert_eq!(
        device_config.get_parameter_value("groupnumber").unwrap(),
        "11"
    );
}

#[test]
fn test_get_parameter_index_using_value() {
    let mut device_config = simple_config();

    for index in 0..device_config
        .get_parameter_possible_values("groupnumber")
        .unwrap()
        .len()
    {
        device_config
            .set_parameter_value("groupnumber", index.to_string())
            .unwrap();
        assert_eq!(
            device_config
                .get_parameter_index_using_value("groupnumber")
                .unwrap(),
            index as u8
        );
    }

    let capacity_values = device_config
        .get_parameter_possible_values("loadcapacity")
        .unwrap();

    for index in 0..capacity_values.len() {
        device_config
            .set_parameter_value("loadcapacity", capacity_values[index].clone())
            .unwrap();
        assert_eq!(
            device_config
                .get_parameter_index_using_value("loadcapacity")
                .unwrap(),
            index as u8
        );
    }
}

#[test]
fn test_set_parameter_value_using_index() {
    let mut device_config = simple_config();

    for index in 0..device_config
        .get_parameter_possible_values("groupnumber")
        .unwrap()
        .len()
    {
        device_config
            .set_parameter_value_using_index("groupnumber", index as u8)
            .unwrap();
        assert_eq!(
            device_config.get_parameter_value("groupnumber").unwrap(),
            index.to_string()
        );
    }

    for index in 0..device_config
        .get_parameter_possible_values("loadcapacity")
        .unwrap()
        .len()
    {
        device_config
            .set_parameter_value_using_index("loadcapacity", index as u8)
            .unwrap();
        assert_eq!(
            device_config.get_parameter_value("loadcapacity").unwrap(),
            device_config
                .get_parameter_possible_values("loadcapacity")
                .unwrap()[index]
        );
    }
}

#[test]
fn store_errors() {
    let mut store = simple_config();
    assert_eq!(
        store.get_parameter_value("missing"),
        Err(ConfigError::ParameterNotFound)
    );
    assert_eq!(
        store.set_parameter_value("missing", "1".to_string()),
        Err(ConfigError::ParameterNotFound)
    );
    assert_eq!(
        store.set_parameter_value("soundvolume", "100".to_string()),
        Err(ConfigError::ValueNotInDomain)
    );
    assert_eq!(store.get_parameter_value("soundvolume").unwrap(), "50%");
    assert_eq!(
        store.set_parameter_value_using_index("loadcapacity", 4),
        Err(ConfigError::IndexOutOfRange)
    );
    assert_eq!(store.get_parameter_value("loadcapacity").unwrap(), "630");
    assert_eq!(
        store.set_parameter_value_using_index("missing", 0),
        Err(ConfigError::ParameterNotFound)
    );
    assert_eq!(
        DeviceConfig::new().get_parameters_names(),
        Err(ConfigError::EmptyParameterList)
    );
    store.insert_parameter(
        "language".to_string(),
        Parameter::new("Language".to_string(), "de".to_string(), strings(&["ru", "en"])),
    );
    assert_eq!(
        store.get_parameter_index_using_value("language"),
        Err(ConfigError::ValueNotInDomain)
    );
    assert_eq!(
        store.get_parameters_names().unwrap(),
        strings(&["groupnumber", "soundvolume", "loadcapacity", "language"])
    );
    assert_eq!(store.get_parameter_description("language").unwrap(), "Language");
}

#[test]
fn menu_copy_round_trip() {
    let mut store = simple_config();
    let mut menu = DeviceParameters::default();
    menu.load_user_config(&store).unwrap();
    assert_eq!(menu.parameters.len(), 4);
    assert_eq!(menu.parameters[1].key, "soundvolume");
    assert_eq!(menu.parameters[1].description, "Sound volume");
    assert_eq!(menu.parameters[1].selected_value, "50%");
    assert_eq!(menu.parameters[1].options.len(), 5);

    menu.update_parameter("soundvolume", "100%".to_string());
    menu.update_parameter("missing", "x".to_string());
    assert_eq!(menu.parameters[1].selected_value, "100%");
    menu.update_user_config(&mut store).unwrap();
    assert_eq!(store.get_parameter_value("soundvolume").unwrap(), "100%");

    menu.update_parameter("language", "fr".to_string());
    assert_eq!(
        menu.update_user_config(&mut store),
        Err(ConfigError::ValueNotInDomain)
    );

    let mut empty = DeviceParameters::new();
    assert_eq!(
        empty.load_user_config(&DeviceConfig::new()),
        Err(ConfigError::EmptyParameterList)
    );
    empty.add_parameter(user_parameters::Parameter::new(
        "k".to_string(),
        "d".to_string(),
        Vec::new(),
        "v".to_string(),
    ));
    assert_eq!(empty.parameters.len(), 1);
}

#[test]
fn menu_item_selects_parameter() {
    let store = simple_config();
    assert_eq!(
        parameter_for_menu_item(&store, "Load capacity"),
        Some("loadcapacity".to_string())
    );
    assert_eq!(parameter_for_menu_item(&store, "Exit"), None);
    assert_eq!(ActiveMenuView::from("config_menu"), ActiveMenuView::ConfigView);
    assert_eq!(ActiveMenuView::from("exit_menu"), ActiveMenuView::ExitView);
    assert_eq!(ActiveMenuView::from("update_menu"), ActiveMenuView::UpdateView);
    assert_eq!(ActiveMenuView::from("other"), ActiveMenuView::MainView);
}

#[test]
fn serial_settings_from_store() {
    let mut store = DeviceConfig::new();
    store.insert_parameter(
        "device".to_string(),
        Parameter::new("Port".to_string(), "/dev/ttyS4".to_string(), strings(&["/dev/ttyS4"])),
    );
    store.insert_parameter(
        "baudrate".to_string(),
        Parameter::new("Speed".to_string(), "115200".to_string(), strings(&["115200"])),
    );
    let config = SerialPortConfig::new(&store).unwrap();
    assert_eq!(config.get_serial_name(), "/dev/ttyS4");
    assert_eq!(config.get_serial_baudrate(), 115200);

    store.insert_parameter(
        "baudrate".to_string(),
        Parameter::new("Speed".to_string(), "fast".to_string(), strings(&["fast"])),
    );
    assert!(matches!(SerialPortConfig::new(&store), Err(ConfigError::NotANumber)));
    store.insert_parameter(
        "baudrate".to_string(),
        Parameter::new("Speed".to_string(), "4294967296".to_string(), Vec::new()),
    );
    assert!(matches!(SerialPortConfig::new(&store), Err(ConfigError::NotANumber)));
    assert!(matches!(
        SerialPortConfig::new(&DeviceConfig::new()),
        Err(ConfigError::ParameterNotFound)
    ));
}

#[test]
fn command_mode_words() {
    assert_eq!(parse_command_mode("pull"), Some(CommandMode::Pull));
    assert_eq!(parse_command_mode("push"), Some(CommandMode::Push));
    assert_eq!(parse_command_mode("Pull"), None);
    assert_eq!("push".parse::<CommandMode>(), Ok(CommandMode::Push));
    assert_eq!(
        "sync".parse::<CommandMode>(),
        Err("Unknown command mode: sync".to_string())
    );
}
