//! The options of the rule, and how they are read from its configuration.

use super::pattern::{pattern_view, unicode_regex_compiles, IgnorePattern};
use super::NoUnusedVars;
use vstd::prelude::*;
use vstd::std_specs::convert::TryFromSpecImpl;

verus! {

#[derive(Debug, Clone, Copy, PartialEq, Eq, Structural)]
pub enum VarsOption {
    /// All variables are checked for usage, including those in the global scope.
    All,
    /// Checks only that locally-declared variables are used but will allow
    /// global variables to be unused.
    Local,
}

#[derive(Debug, Clone, Copy, PartialEq, Eq, Structural)]
pub enum ArgsOption {
    /// Unused positional arguments that occur before the last used argument
    /// will not be checked, but all named arguments and all positional
    /// arguments after the last used argument will be checked.
    AfterUsed,
    /// All named arguments must be used
    All,
    /// Do not check arguments
    Unchecked,
}

impl Default for VarsOption {
    fn default() -> (option: VarsOption)
        ensures
            option == VarsOption::All,
    {
        VarsOption::All
    }
}

impl Default for ArgsOption {
    fn default() -> (option: ArgsOption)
        ensures
            option == ArgsOption::AfterUsed,
    {
        ArgsOption::AfterUsed
    }
}

/// The options that have to be read with care.
#[derive(Debug, Clone, Copy, PartialEq, Eq, Structural)]
pub enum OptionName {
    Vars,
    VarsIgnorePattern,
    Args,
    ArgsIgnorePattern,
    CaughtErrors,
    CaughtErrorsIgnorePattern,
    DestructuredArrayIgnorePattern,
}

/// Why a configuration is refused.
#[derive(Debug, Clone, Copy, PartialEq, Eq, Structural)]
pub enum OptionError {
    /// The option wants a string and got something else.
    ExpectedString(OptionName),
    /// The option got a string that is none of those it knows.
    UnknownValue(OptionName),
    /// The pattern of the option does not compile.
    InvalidPattern(OptionName),
    /// The configuration is neither a string nor an object nor null.
    ExpectedStringOrObject,
}

/// The value of one entry of a configuration object, as far as the rule
/// reads it.
#[derive(Debug)]
pub enum Setting {
    Null,
    Bool(bool),
    Number,
    String(String),
    Array,
    Object,
}

/// What a [`Setting`] holds.
pub enum SettingView {
    Null,
    Bool(bool),
    Number,
    String(Seq<char>),
    Array,
    Object,
}

impl DeepView for Setting {
    type V = SettingView;

    open spec fn deep_view(&self) -> SettingView {
        match self {
            Setting::Null => SettingView::Null,
            Setting::Bool(value) => SettingView::Bool(*value),
            Setting::Number => SettingView::Number,
            Setting::String(value) => SettingView::String(value@),
            Setting::Array => SettingView::Array,
            Setting::Object => SettingView::Object,
        }
    }
}

/// The first element of the rule's configuration, as far as the rule reads
/// it.
#[derive(Debug)]
pub enum Configuration {
    /// There is no first element.
    Absent,
    Null,
    /// A string: the `vars` option.
    String(String),
    /// An object: the options by name, no name twice.
    Object(Vec<(String, Setting)>),
    /// Anything else.
    Other,
}

/// What a [`Configuration`] holds.
pub enum ConfigurationView {
    Absent,
    Null,
    String(Seq<char>),
    Object(Seq<(Seq<char>, SettingView)>),
    Other,
}

impl DeepView for Configuration {
    type V = ConfigurationView;

    open spec fn deep_view(&self) -> ConfigurationView {
        match self {
            Configuration::Absent => ConfigurationView::Absent,
            Configuration::Null => ConfigurationView::Null,
            Configuration::String(value) => ConfigurationView::String(value@),
            Configuration::Object(entries) => ConfigurationView::Object(entries.deep_view()),
            Configuration::Other => ConfigurationView::Other,
        }
    }
}

/// What the options of a rule hold.
pub struct NoUnusedVarsView {
    pub vars: VarsOption,
    pub vars_ignore_pattern: Option<Seq<char>>,
    pub args: ArgsOption,
    pub args_ignore_pattern: Option<Seq<char>>,
    pub caught_errors: bool,
    pub caught_errors_ignore_pattern: Option<Seq<char>>,
    pub destructured_array_ignore_pattern: Option<Seq<char>>,
    pub ignore_rest_siblings: bool,
}

impl NoUnusedVarsView {
    /// The options of a rule that was not configured.
    pub open spec fn default() -> NoUnusedVarsView {
        NoUnusedVarsView {
            vars: VarsOption::All,
            vars_ignore_pattern: None,
            args: ArgsOption::AfterUsed,
            args_ignore_pattern: None,
            caught_errors: false,
            caught_errors_ignore_pattern: None,
            destructured_array_ignore_pattern: None,
            ignore_rest_siblings: false,
        }
    }
}

/// The `vars` option that `value` names.
pub open spec fn vars_named(value: Seq<char>) -> Result<VarsOption, OptionError> {
    if value == "all"@ {
        Ok(VarsOption::All)
    } else if value == "local"@ {
        Ok(VarsOption::Local)
    } else {
        Err(OptionError::UnknownValue(OptionName::Vars))
    }
}

/// The `args` option that `value` names.
pub open spec fn args_named(value: Seq<char>) -> Result<ArgsOption, OptionError> {
    if value == "after-used"@ {
        Ok(ArgsOption::AfterUsed)
    } else if value == "all"@ {
        Ok(ArgsOption::All)
    } else if value == "none"@ {
        Ok(ArgsOption::Unchecked)
    } else {
        Err(OptionError::UnknownValue(OptionName::Args))
    }
}

/// The `caughtErrors` option that `value` names.
pub open spec fn caught_errors_named(value: Seq<char>) -> Result<bool, OptionError> {
    if value == "all"@ {
        Ok(true)
    } else if value == "none"@ {
        Ok(false)
    } else {
        Err(OptionError::UnknownValue(OptionName::CaughtErrors))
    }
}

/// The value of the first entry named `name`, if there is one.
pub open spec fn setting_of(entries: Seq<(Seq<char>, SettingView)>, name: Seq<char>) -> Option<
    SettingView,
>
    decreases entries.len(),
{
    if entries.len() == 0 {
        None
    } else if entries[0].0 == name {
        Some(entries[0].1)
    } else {
        setting_of(entries.drop_first(), name)
    }
}

/// The `vars` option of an object: `all` where the object does not say.
pub open spec fn vars_of(setting: Option<SettingView>) -> Result<VarsOption, OptionError> {
    match setting {
        None => Ok(VarsOption::All),
        Some(SettingView::String(value)) => vars_named(value),
        Some(_) => Err(OptionError::ExpectedString(OptionName::Vars)),
    }
}

/// The `args` option of an object: `after-used` where the object does not
/// say.
pub open spec fn args_of(setting: Option<SettingView>) -> Result<ArgsOption, OptionError> {
    match setting {
        None => Ok(ArgsOption::AfterUsed),
        Some(SettingView::String(value)) => args_named(value),
        Some(_) => Err(OptionError::ExpectedString(OptionName::Args)),
    }
}

/// The `caughtErrors` option of an object: `none` where the object does
/// not say.
pub open spec fn caught_errors_of(setting: Option<SettingView>) -> Result<bool, OptionError> {
    match setting {
        None => Ok(false),
        Some(SettingView::String(value)) => caught_errors_named(value),
        Some(_) => Err(OptionError::ExpectedString(OptionName::CaughtErrors)),
    }
}

/// An ignore pattern of an object: the string under its name, which has
/// to compile. There is no pattern where the object does not say or says
/// something that is no string.
pub open spec fn pattern_of(setting: Option<SettingView>, name: OptionName) -> Result<
    Option<Seq<char>>,
    OptionError,
> {
    match setting {
        Some(SettingView::String(pattern)) => if unicode_regex_compiles(pattern) {
            Ok(Some(pattern))
        } else {
            Err(OptionError::InvalidPattern(name))
        },
        _ => Ok(None),
    }
}

/// The `ignoreRestSiblings` option of an object: what the object says
/// where it says true or false, and false otherwise.
pub open spec fn ignore_rest_siblings_of(setting: Option<SettingView>) -> bool {
    match setting {
        Some(SettingView::Bool(value)) => value,
        _ => false,
    }
}

/// The options that an object configures. Where several of its entries
/// are refused, the first of them in the order of the fields of the
/// options decides the error.
pub open spec fn options_of_object(entries: Seq<(Seq<char>, SettingView)>) -> Result<
    NoUnusedVarsView,
    OptionError,
> {
    let vars = vars_of(setting_of(entries, "vars"@));
    let vars_ignore_pattern = pattern_of(
        setting_of(entries, "varsIgnorePattern"@),
        OptionName::VarsIgnorePattern,
    );
    let args = args_of(setting_of(entries, "args"@));
    let args_ignore_pattern = pattern_of(
        setting_of(entries, "argsIgnorePattern"@),
        OptionName::ArgsIgnorePattern,
    );
    let caught_errors = caught_errors_of(setting_of(entries, "caughtErrors"@));
    let caught_errors_ignore_pattern = pattern_of(
        setting_of(entries, "caughtErrorsIgnorePattern"@),
        OptionName::CaughtErrorsIgnorePattern,
    );
    let destructured_array_ignore_pattern = pattern_of(
        setting_of(entries, "destructuredArrayIgnorePattern"@),
        OptionName::DestructuredArrayIgnorePattern,
    );
    if vars is Err {
        Err(vars->Err_0)
    } else if vars_ignore_pattern is Err {
        Err(vars_ignore_pattern->Err_0)
    } else if args is Err {
        Err(args->Err_0)
    } else if args_ignore_pattern is Err {
        Err(args_ignore_pattern->Err_0)
    } else if caught_errors is Err {
        Err(caught_errors->Err_0)
    } else if caught_errors_ignore_pattern is Err {
        Err(caught_errors_ignore_pattern->Err_0)
    } else if destructured_array_ignore_pattern is Err {
        Err(destructured_array_ignore_pattern->Err_0)
    } else {
        Ok(
            NoUnusedVarsView {
                vars: vars->Ok_0,
                vars_ignore_pattern: vars_ignore_pattern->Ok_0,
                args: args->Ok_0,
                args_ignore_pattern: args_ignore_pattern->Ok_0,
                caught_errors: caught_errors->Ok_0,
                caught_errors_ignore_pattern: caught_errors_ignore_pattern->Ok_0,
                destructured_array_ignore_pattern: destructured_array_ignore_pattern->Ok_0,
                ignore_rest_siblings: ignore_rest_siblings_of(
                    setting_of(entries, "ignoreRestSiblings"@),
                ),
            },
        )
    }
}

/// The options that a configuration configures.
pub open spec fn options_of(configuration: ConfigurationView) -> Result<
    NoUnusedVarsView,
    OptionError,
> {
    match configuration {
        ConfigurationView::Absent => Ok(NoUnusedVarsView::default()),
        ConfigurationView::Null => Ok(NoUnusedVarsView::default()),
        ConfigurationView::String(value) => match vars_named(value) {
            Ok(vars) => Ok(NoUnusedVarsView { vars, ..NoUnusedVarsView::default() }),
            Err(error) => Err(error),
        },
        ConfigurationView::Object(entries) => options_of_object(entries),
        ConfigurationView::Other => Err(OptionError::ExpectedStringOrObject),
    }
}

/// Whether two strings are the same text.
pub fn same_text(left: &str, right: &str) -> (same: bool)
    ensures
        same == (left@ == right@),
{
    let left = left.to_owned();
    let right = right.to_owned();
    left == right
}

/// The value of the first entry named `name`, if there is one.
pub fn lookup<'a>(entries: &'a Vec<(String, Setting)>, name: &str) -> (found: Option<&'a Setting>)
    ensures
        found.deep_view() == setting_of(entries.deep_view(), name@),
{
    let mut i: usize = 0;
    assert(entries.deep_view().skip(0) =~= entries.deep_view());
    while i < entries.len()
        invariant
            i <= entries.len(),
            setting_of(entries.deep_view(), name@) == setting_of(
                entries.deep_view().skip(i as int),
                name@,
            ),
        decreases entries.len() - i,
    {
        proof {
            let rest = entries.deep_view().skip(i as int);
            assert(rest[0] == entries.deep_view()[i as int]);
            assert(rest.drop_first() =~= entries.deep_view().skip(i + 1));
        }
        if same_text(entries[i].0.as_str(), name) {
            return Some(&entries[i].1);
        }
        i += 1;
    }
    None
}

impl<'a> TryFrom<&'a String> for VarsOption {
    type Error = OptionError;

    /// The option that `value` names: `all` or `local`.
    fn try_from(value: &'a String) -> (option: Result<VarsOption, OptionError>) {
        if same_text(value.as_str(), "all") {
            Ok(VarsOption::All)
        } else if same_text(value.as_str(), "local") {
            Ok(VarsOption::Local)
        } else {
            Err(OptionError::UnknownValue(OptionName::Vars))
        }
    }
}

impl<'a> TryFromSpecImpl<&'a String> for VarsOption {
    open spec fn obeys_try_from_spec() -> bool {
        true
    }

    open spec fn try_from_spec(value: &'a String) -> Result<VarsOption, OptionError> {
        vars_named(value@)
    }
}

impl<'a> TryFrom<&'a Setting> for VarsOption {
    type Error = OptionError;

    /// The option that a setting names, which has to be a string.
    fn try_from(value: &'a Setting) -> (option: Result<VarsOption, OptionError>) {
        match value {
            Setting::String(value) => VarsOption::try_from(value),
            _ => Err(OptionError::ExpectedString(OptionName::Vars)),
        }
    }
}

impl<'a> TryFromSpecImpl<&'a Setting> for VarsOption {
    open spec fn obeys_try_from_spec() -> bool {
        true
    }

    open spec fn try_from_spec(value: &'a Setting) -> Result<VarsOption, OptionError> {
        vars_of(Some(value.deep_view()))
    }
}

impl<'a> TryFrom<&'a Setting> for ArgsOption {
    type Error = OptionError;

    /// The option that a setting names, which has to be one of the strings
    /// `after-used`, `all` and `none`.
    fn try_from(value: &'a Setting) -> (option: Result<ArgsOption, OptionError>) {
        match value {
            Setting::String(value) => {
                if same_text(value.as_str(), "after-used") {
                    Ok(ArgsOption::AfterUsed)
                } else if same_text(value.as_str(), "all") {
                    Ok(ArgsOption::All)
                } else if same_text(value.as_str(), "none") {
                    Ok(ArgsOption::Unchecked)
                } else {
                    Err(OptionError::UnknownValue(OptionName::Args))
                }
            },
            _ => Err(OptionError::ExpectedString(OptionName::Args)),
        }
    }
}

impl<'a> TryFromSpecImpl<&'a Setting> for ArgsOption {
    open spec fn obeys_try_from_spec() -> bool {
        true
    }

    open spec fn try_from_spec(value: &'a Setting) -> Result<ArgsOption, OptionError> {
        args_of(Some(value.deep_view()))
    }
}

/// Parses a potential pattern into one that accepts unicode characters.
pub fn parse_unicode_rule(value: Option<&Setting>, name: OptionName) -> (pattern: Result<
    Option<IgnorePattern>,
    OptionError,
>)
    ensures
        match pattern {
            Ok(pattern) => pattern_of(value.deep_view(), name) == Ok::<
                Option<Seq<char>>,
                OptionError,
            >(pattern_view(pattern)),
            Err(error) => pattern_of(value.deep_view(), name) == Err::<
                Option<Seq<char>>,
                OptionError,
            >(error),
        },
{
    match value {
        Some(Setting::String(pattern)) => match IgnorePattern::new(pattern.as_str()) {
            Some(pattern) => Ok(Some(pattern)),
            None => Err(OptionError::InvalidPattern(name)),
        },
        _ => Ok(None),
    }
}

/// The `caughtErrors` option of an object.
fn parse_caught_errors(value: Option<&Setting>) -> (caught_errors: Result<bool, OptionError>)
    ensures
        caught_errors == caught_errors_of(value.deep_view()),
{
    match value {
        None => Ok(false),
        Some(Setting::String(value)) => {
            if same_text(value.as_str(), "all") {
                Ok(true)
            } else if same_text(value.as_str(), "none") {
                Ok(false)
            } else {
                Err(OptionError::UnknownValue(OptionName::CaughtErrors))
            }
        },
        Some(_) => Err(OptionError::ExpectedString(OptionName::CaughtErrors)),
    }
}

impl NoUnusedVars {
    /// The options that an object configures.
    fn from_object(entries: &Vec<(String, Setting)>) -> (options: Result<NoUnusedVars, OptionError>)
        ensures
            match options {
                Ok(options) => options_of_object(entries.deep_view()) == Ok::<
                    NoUnusedVarsView,
                    OptionError,
                >(options@),
                Err(error) => options_of_object(entries.deep_view()) == Err::<
                    NoUnusedVarsView,
                    OptionError,
                >(error),
            },
    {
        let vars = match lookup(entries, "vars") {
            Some(vars) => match VarsOption::try_from(vars) {
                Ok(vars) => vars,
                Err(error) => {
                    return Err(error);
                },
            },
            None => VarsOption::default(),
        };
        let vars_ignore_pattern = match parse_unicode_rule(
            lookup(entries, "varsIgnorePattern"),
            OptionName::VarsIgnorePattern,
        ) {
            Ok(pattern) => pattern,
            Err(error) => {
                return Err(error);
            },
        };
        let args = match lookup(entries, "args") {
            Some(args) => match ArgsOption::try_from(args) {
                Ok(args) => args,
                Err(error) => {
                    return Err(error);
                },
            },
            None => ArgsOption::default(),
        };
        let args_ignore_pattern = match parse_unicode_rule(
            lookup(entries, "argsIgnorePattern"),
            OptionName::ArgsIgnorePattern,
        ) {
            Ok(pattern) => pattern,
            Err(error) => {
                return Err(error);
            },
        };
        let caught_errors = match parse_caught_errors(lookup(entries, "caughtErrors")) {
            Ok(caught_errors) => caught_errors,
            Err(error) => {
                return Err(error);
            },
        };
        let caught_errors_ignore_pattern = match parse_unicode_rule(
            lookup(entries, "caughtErrorsIgnorePattern"),
            OptionName::CaughtErrorsIgnorePattern,
        ) {
            Ok(pattern) => pattern,
            Err(error) => {
                return Err(error);
            },
        };
        let destructured_array_ignore_pattern = match parse_unicode_rule(
            lookup(entries, "destructuredArrayIgnorePattern"),
            OptionName::DestructuredArrayIgnorePattern,
        ) {
            Ok(pattern) => pattern,
            Err(error) => {
                return Err(error);
            },
        };
        let ignore_rest_siblings = match lookup(entries, "ignoreRestSiblings") {
            Some(Setting::Bool(value)) => *value,
            _ => false,
        };
        Ok(
            NoUnusedVars::with(
                vars,
                vars_ignore_pattern,
                args,
                args_ignore_pattern,
                caught_errors,
                caught_errors_ignore_pattern,
                destructured_array_ignore_pattern,
                ignore_rest_siblings,
            ),
        )
    }

    /// The options that a configuration configures: the defaults where it
    /// is absent or null; the `vars` option where it is a string; the
    /// options that it names where it is an object. Anything else is
    /// refused, and so is an option whose value is not one that it knows, and
    /// a pattern that does not compile.
    pub fn from(configuration: &Configuration) -> (options: Result<NoUnusedVars, OptionError>)
        ensures
            match options {
                Ok(options) => options_of(configuration.deep_view()) == Ok::<
                    NoUnusedVarsView,
                    OptionError,
                >(options@),
                Err(error) => options_of(configuration.deep_view()) == Err::<
                    NoUnusedVarsView,
                    OptionError,
                >(error),
            },
    {
        match configuration {
            Configuration::Absent => Ok(NoUnusedVars::default()),
            Configuration::Null => Ok(NoUnusedVars::default()),
            Configuration::String(vars) => match VarsOption::try_from(vars) {
                Ok(vars) => {
                    Ok(
                        NoUnusedVars::with(
                            vars,
                            None,
                            ArgsOption::default(),
                            None,
                            false,
                            None,
                            None,
                            false,
                        ),
                    )
                },
                Err(error) => Err(error),
            },
            Configuration::Object(entries) => NoUnusedVars::from_object(entries),
            Configuration::Other => Err(OptionError::ExpectedStringOrObject),
        }
    }

    /// The options that a configuration configures.
    pub fn from_configuration(configuration: &Configuration) -> (options: Result<
        NoUnusedVars,
        OptionError,
    >)
        ensures
            match options {
                Ok(options) => options_of(configuration.deep_view()) == Ok::<
                    NoUnusedVarsView,
                    OptionError,
                >(options@),
                Err(error) => options_of(configuration.deep_view()) == Err::<
                    NoUnusedVarsView,
                    OptionError,
                >(error),
            },
    {
        NoUnusedVars::from(configuration)
    }
}

} // verus!
