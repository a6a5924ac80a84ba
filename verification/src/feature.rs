pub mod feature_rule_force;
pub mod feature_rule_experiment;
pub mod use_case;
