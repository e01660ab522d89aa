use coster::gui::client::{Client, ClientError};
use coster::gui::form::{FieldMsg, FormMsg, InputValue, Size};
use coster::gui::simple_logger::{LogLevel as SimpleLogLevel, SimpleLoggerMiddleware};
use coster::gui::state::{AppRoute, CosterClientDBStore, CosterEvent, DatabaseMiddleware, RouteType};
use coster::gui::store::{ReducerResult, StoreEvent};
use coster::gui::validation::{combine_validations, Validation, ValidationError, ValidationErrors, ValidationMessage, Validator};
use coster::gui::web_logger::{LogLevel as WebLogLevel, WebLoggerMiddleware};
use coster::costing::db::KeyValueDBStore;
use coster::i18n::{Crate, I18nConfig, I18nConfigError};
use std::rc::Rc;

#[test]
fn size_classes() {
    assert_eq!(Some("is-small".to_string()), Size::Small.to_class());
    assert_eq!(None, Size::Normal.to_class());
    assert_eq!(Some("is-medium".to_string()), Size::Medium.to_class());
    assert_eq!(Some("is-big".to_string()), Size::Big.to_class());
    assert_eq!(Size::Normal, Size::default());
}

#[test]
fn input_values() {
    let value = InputValue::String("hello".to_string());
    assert_eq!("hello", value.as_string());
    assert_eq!("hello".to_string(), value.into_string());
}

#[test]
fn form_messages() {
    let msg: FormMsg<&str> = FormMsg::FieldValidationUpdate("name", ValidationErrors::new(vec![ValidationError::new("name")]));
    match msg.clone() {
        FormMsg::FieldValidationUpdate(key, errors) => {
            assert_eq!("name", key);
            assert_eq!(1, errors.len());
        },
        _ => panic!("unexpected message"),
    }
    assert_eq!(FieldMsg::Validate, FieldMsg::Validate);
}

#[test]
fn validation_errors() {
    let e1 = ValidationError::new("name").message("name is empty");
    let e2 = ValidationError::new("email");
    let e3 = ValidationError::new("name").with_message(|key: &&str| format!("{} is too long", key));
    assert_eq!("name is empty", e1.get_message());
    assert_eq!("Validation error", e2.get_message());
    assert_eq!("name is too long", e3.get_message());
    assert_eq!(ValidationMessage::Default, e2.message);

    let mut errors = ValidationErrors::new(vec![e1, e2]);
    assert_eq!(2, errors.len());
    assert!(!errors.is_empty());
    errors.extend(ValidationErrors::new(vec![e3]));
    assert_eq!(3, errors.len());

    let name_errors = errors.get(&"name").unwrap();
    assert_eq!(2, name_errors.len());
    assert_eq!("name is empty", name_errors.errors[0].get_message());
    assert_eq!("name is too long", name_errors.errors[1].get_message());
    assert!(errors.get(&"age").is_none());
    assert!(ValidationErrors::<&str>::empty().is_empty());
}

#[test]
fn combined_validations() {
    let ok: Result<(), ValidationErrors<&str>> = Ok(());
    assert!(combine_validations(vec![ok.clone(), Ok(())]).is_ok());
    let failed = combine_validations(vec![
        Err(ValidationErrors::new(vec![ValidationError::new("a")])),
        Ok(()),
        Err(ValidationErrors::new(vec![ValidationError::new("b"), ValidationError::new("c")])),
    ])
    .unwrap_err();
    let keys: Vec<&str> = failed.errors.iter().map(|e| e.key).collect();
    assert_eq!(vec!["a", "b", "c"], keys);
}

#[test]
fn client_headers() {
    let mut client = Client::new("http://localhost:8000/api");
    assert_eq!("http://localhost:8000/api", client.endpoint());
    assert!(client.header("Authorization").is_none());
    client.add_header("Authorization", "token-1");
    client.add_header("Accept", "application/json");
    assert_eq!(Some(&"token-1".to_string()), client.header("Authorization"));
    client.add_header("Authorization", "token-2");
    assert_eq!(Some(&"token-2".to_string()), client.header("Authorization"));
    assert_eq!(Some(&"application/json".to_string()), client.header("Accept"));
    assert_ne!(ClientError::Body, ClientError::NoWindow);
}

#[test]
fn loggers() {
    let simple = SimpleLoggerMiddleware::new();
    assert_eq!(SimpleLogLevel::Debug, simple.get_log_level());
    assert_eq!(SimpleLogLevel::Warn, simple.log_level(SimpleLogLevel::Warn).get_log_level());
    let web = WebLoggerMiddleware::new();
    assert_eq!(WebLogLevel::Log, web.get_log_level());
    assert_eq!(WebLogLevel::Trace, web.log_level(WebLogLevel::Trace).get_log_level());
}

#[test]
fn store_events() {
    assert!(CosterEvent::none().is_none());
    assert!(!CosterEvent::TabsChanged.is_none());
    assert_eq!(CosterEvent::NoEvent, CosterEvent::no_event());
    assert!(<() as StoreEvent>::none().is_none());
    let result: ReducerResult<u32, CosterEvent, ()> = ReducerResult::new(Rc::new(3), vec![CosterEvent::StateChanged], vec![]);
    assert_eq!(3, *result.state);
    assert_eq!(1, result.events.len());
}

#[test]
fn routes() {
    assert_eq!("/tab", AppRoute::CostingTab.to_path_string());
    assert_eq!("/", AppRoute::Index.to_path_string());
    assert_eq!("/help", RouteType::Valid(AppRoute::Help).path());
    assert_eq!("/nowhere", RouteType::Invalid("/nowhere".to_string()).path());
    assert!(RouteType::Invalid("/x".to_string()).is_invalid());
    assert!(!RouteType::from_app_route(AppRoute::About).is_invalid());
}

#[test]
fn database_stores() {
    assert_eq!("General", CosterClientDBStore::General.name());
    assert_eq!(1, CosterClientDBStore::Tabs.db_col());
    assert_eq!(2, CosterClientDBStore::n_db_cols());
    assert_eq!(0, CosterClientDBStore::General.column());
    let _middleware = DatabaseMiddleware::new(5u8);
}

#[test]
fn crates() {
    let c = Crate::new("gui", std::path::PathBuf::from("gui/"));
    assert_eq!("gui", c.name);
    assert_eq!(std::path::PathBuf::from("gui/"), c.path);
}

#[test]
fn validation_errors_display() {
    let errors = ValidationErrors::new(vec![
        ValidationError::new("name"),
        ValidationError::new("currency").message("Select a currency"),
        ValidationError::new("name").message("Too long"),
    ]);
    assert_eq!("Validation error, Select a currency, Too long", errors.to_display_string());
    let none: ValidationErrors<&str> = ValidationErrors::new(vec![]);
    assert_eq!("", none.to_display_string());
    let one = ValidationErrors::new(vec![ValidationError::new(1u8).message("Only one")]);
    assert_eq!("Only one", one.to_display_string());
}

#[test]
fn client_request_headers() {
    let mut client = Client::new("http://localhost:8000/api");
    let fixed = vec![
        ("Content-Type".to_string(), "application/json".to_string()),
        ("Accept".to_string(), "application/json".to_string()),
    ];
    assert_eq!(fixed, client.request_headers());
    client.add_header("Authorization", "Bearer token");
    client.add_header("Authorization", "Bearer other");
    let mut expected = fixed.clone();
    expected.push(("Authorization".to_string(), "Bearer other".to_string()));
    assert_eq!(expected, client.request_headers());
}

struct NotEmpty;

impl Validation<String, &'static str> for NotEmpty {
    fn validate_value(&self, value: &String, key: &&'static str) -> Result<(), ValidationErrors<&'static str>> {
        if value.is_empty() {
            Err(ValidationErrors::new(vec![ValidationError::new(*key).message("empty")]))
        } else {
            Ok(())
        }
    }
}

struct Short;

impl Validation<String, &'static str> for Short {
    fn validate_value(&self, value: &String, key: &&'static str) -> Result<(), ValidationErrors<&'static str>> {
        if value.len() > 3 {
            Err(ValidationErrors::new(vec![ValidationError::new(*key).message("too long")]))
        } else {
            Ok(())
        }
    }
}

#[test]
fn validator_applies_each_validation_in_turn() {
    let validations: Vec<Rc<dyn Validation<String, &'static str>>> = vec![Rc::new(NotEmpty), Rc::new(Short)];
    let validator = Validator::new().validation(validations);
    assert!(validator.validate_value(&"abc".to_string(), &"name").is_ok());
    let errors = validator.validate_value(&"abcd".to_string(), &"name").unwrap_err();
    assert_eq!(1, errors.len());
    assert_eq!(ValidationMessage::Text("too long".to_string()), errors.errors[0].message);
    let empty = Validator::<String, &'static str>::default();
    assert!(empty.validate_value(&String::new(), &"name").is_ok());
}

#[test]
fn gettext_config_when_there_is_one() {
    let with: I18nConfig<&str> = I18nConfig { src_locale: "en".to_string(), locales: vec!["ru".to_string()], gettext_config: Some("po") };
    assert_eq!(Ok(&"po"), with.gettext_config());
    let without: I18nConfig<&str> = I18nConfig { src_locale: "en".to_string(), locales: vec![], gettext_config: None };
    let error = without.gettext_config().unwrap_err();
    assert_eq!(I18nConfigError::NoGettextConfig, error);
    assert_eq!("there is no gettext config available in this i18n config", error.message());
}
