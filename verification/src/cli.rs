//! What the commands of the command line are made of: for each command,
//! what is to be done, told from the arguments and the configuration.

use crate::text::{clone_option, owned};
use vstd::prelude::*;

verus! {

/// The clouds that the gateway can be bridged to.
#[derive(Clone, Copy, PartialEq, Eq, Structural, Debug)]
pub enum Cloud {
    C8y,
    Azure,
    Aws,
}

/// A cloud, under a profile where there are several of one kind.
#[derive(Debug)]
pub struct CloudBorrow {
    pub cloud: Cloud,
    pub profile: Option<String>,
}

/// The name of the cloud at the start of its bridge's file.
pub open spec fn cloud_prefix(cloud: Cloud) -> Seq<char> {
    match cloud {
        Cloud::C8y => "c8y"@,
        Cloud::Azure => "az"@,
        Cloud::Aws => "aws"@,
    }
}

/// The name of the file that holds the configuration of a cloud's bridge:
/// `<cloud>-bridge.conf`, or `<cloud>@<profile>-bridge.conf` under a profile.
pub open spec fn bridge_config_filename(cloud: Cloud, profile: Option<Seq<char>>) -> Seq<char> {
    match profile {
        None => cloud_prefix(cloud) + "-bridge.conf"@,
        Some(name) => cloud_prefix(cloud) + "@"@ + name + "-bridge.conf"@,
    }
}

/// The directory of the bridges' files, under the configuration's root.
pub open spec fn bridge_conf_dir() -> Seq<char> {
    "mosquitto-conf"@
}

impl CloudBorrow {
    /// The name of the file that holds the configuration of the bridge.
    pub fn bridge_config_filename(&self) -> (name: String)
        ensures
            name@ == bridge_config_filename(self.cloud, crate::text::option_view(self.profile)),
    {
        let mut name = owned(
            match self.cloud {
                Cloud::C8y => "c8y",
                Cloud::Azure => "az",
                Cloud::Aws => "aws",
            },
        );
        if let Some(profile) = &self.profile {
            name.append("@");
            name.append(profile.as_str());
        }
        name.append("-bridge.conf");
        name
    }

    /// The cloud's name, as shown to the user.
    pub fn to_string(&self) -> (name: String)
        ensures
            name@ == match self.profile {
                None => cloud_prefix(self.cloud),
                Some(profile) => cloud_prefix(self.cloud) + "@"@ + profile@,
            },
    {
        let mut name = owned(
            match self.cloud {
                Cloud::C8y => "c8y",
                Cloud::Azure => "az",
                Cloud::Aws => "aws",
            },
        );
        if let Some(profile) = &self.profile {
            name.append("@");
            name.append(profile.as_str());
        }
        name
    }
}

impl Clone for CloudBorrow {
    fn clone(&self) -> (copy: CloudBorrow)
        ensures
            copy == *self,
    {
        CloudBorrow { cloud: self.cloud, profile: clone_option(&self.profile) }
    }
}

/// The place of a bridge's file, as the two names that follow the
/// configuration's root.
pub fn get_bridge_config_file_path_cloud(cloud: &CloudBorrow) -> (path: (String, String))
    ensures
        path.0@ == bridge_conf_dir(),
        path.1@ == bridge_config_filename(cloud.cloud, crate::text::option_view(cloud.profile)),
{
    (owned("mosquitto-conf"), cloud.bridge_config_filename())
}

/// The profiles under which each cloud is configured; `None` stands for
/// the cloud without profile.
#[derive(Debug)]
pub struct CloudProfiles {
    pub c8y: Vec<Option<String>>,
    pub az: Vec<Option<String>>,
    pub aws: Vec<Option<String>>,
}

/// The clouds of one kind, one for each profile.
pub open spec fn clouds_of(cloud: Cloud, profiles: Seq<Option<String>>) -> Seq<CloudBorrow> {
    profiles.map_values(|profile: Option<String>| CloudBorrow { cloud, profile })
}

fn push_clouds(clouds: &mut Vec<CloudBorrow>, cloud: Cloud, profiles: &Vec<Option<String>>)
    ensures
        final(clouds)@ == old(clouds)@ + clouds_of(cloud, profiles@),
{
    let mut i: usize = 0;
    assert(clouds@ =~= old(clouds)@ + clouds_of(cloud, profiles@).take(0));
    while i < profiles.len()
        invariant
            i <= profiles.len(),
            clouds@ == old(clouds)@ + clouds_of(cloud, profiles@).take(i as int),
        decreases profiles.len() - i,
    {
        clouds.push(CloudBorrow { cloud, profile: clone_option(&profiles[i]) });
        i += 1;
        assert(clouds@ =~= old(clouds)@ + clouds_of(cloud, profiles@).take(i as int));
    }
    assert(clouds_of(cloud, profiles@).take(profiles.len() as int) =~= clouds_of(
        cloud,
        profiles@,
    ));
}

/// The clouds that can have a bridge: those of Cumulocity, then those of
/// Azure, then those of AWS.
pub fn possible_clouds(config: &CloudProfiles) -> (clouds: Vec<CloudBorrow>)
    ensures
        clouds@ == clouds_of(Cloud::C8y, config.c8y@) + clouds_of(Cloud::Azure, config.az@)
            + clouds_of(Cloud::Aws, config.aws@),
{
    let mut clouds: Vec<CloudBorrow> = Vec::new();
    push_clouds(&mut clouds, Cloud::C8y, &config.c8y);
    push_clouds(&mut clouds, Cloud::Azure, &config.az);
    push_clouds(&mut clouds, Cloud::Aws, &config.aws);
    assert(clouds@ =~= clouds_of(Cloud::C8y, config.c8y@) + clouds_of(Cloud::Azure, config.az@)
        + clouds_of(Cloud::Aws, config.aws@));
    clouds
}

/// The first `n` of the clouds whose bridge's file is there.
pub open spec fn established(clouds: Seq<CloudBorrow>, file_exists: Seq<bool>, n: int) -> Seq<
    CloudBorrow,
>
    decreases n,
{
    if n <= 0 {
        Seq::empty()
    } else if file_exists[n - 1] {
        established(clouds, file_exists, n - 1).push(clouds[n - 1])
    } else {
        established(clouds, file_exists, n - 1)
    }
}

/// The clouds that have a bridge: those whose bridge's file is there. If
/// the file is not there, neither is the bridge, and it is not refreshed.
pub fn established_bridges(clouds: &Vec<CloudBorrow>, file_exists: &Vec<bool>) -> (bridges: Vec<
    CloudBorrow,
>)
    requires
        clouds@.len() == file_exists@.len(),
    ensures
        bridges@ == established(clouds@, file_exists@, clouds@.len() as int),
{
    let mut bridges: Vec<CloudBorrow> = Vec::new();
    let mut i: usize = 0;
    while i < clouds.len()
        invariant
            i <= clouds.len(),
            clouds@.len() == file_exists@.len(),
            bridges@ == established(clouds@, file_exists@, i as int),
        decreases clouds.len() - i,
    {
        if file_exists[i] {
            bridges.push(clouds[i].clone());
        }
        i += 1;
    }
    bridges
}

/// Where a bridge runs.
#[derive(Clone, Copy, PartialEq, Eq, Structural, Debug)]
pub enum BridgeLocation {
    Mosquitto,
    BuiltIn,
}

/// One step of refreshing the bridges.
#[derive(Debug)]
pub enum RefreshStep {
    /// The user is told that there is nothing to refresh.
    SayNothingToRefresh,
    /// The configuration that all bridges share is written.
    SaveCommonMosquittoConfig,
    /// The user is told of the bridge, and its configuration is written.
    RefreshBridge(CloudBorrow),
    /// The certificate and the key are given to the user that runs the bridge.
    ChownCertificateAndKey(CloudBorrow),
    /// The user is told that the built-in bridge takes over, and the
    /// configuration of the other is deleted.
    UseBuiltInBridge(CloudBorrow),
    /// The user is told of it, and mosquitto is restarted.
    RestartMosquitto,
}

/// A cloud whose bridge can be configured, and where the bridge runs;
/// `None` where the bridge's configuration cannot be made.
#[derive(Debug)]
pub struct BridgeCandidate {
    pub cloud: CloudBorrow,
    pub location: Option<BridgeLocation>,
}

/// The steps that refresh the first `n` established bridges.
pub open spec fn refresh_steps(bridges: Seq<CloudBorrow>, n: int) -> Seq<RefreshStep>
    decreases n,
{
    if n <= 0 {
        Seq::empty()
    } else {
        refresh_steps(bridges, n - 1).push(RefreshStep::RefreshBridge(bridges[n - 1]))
    }
}

/// Tells whether a cloud is among the given ones.
pub open spec fn has_cloud(bridges: Seq<CloudBorrow>, cloud: CloudBorrow) -> bool {
    exists|i: int|
        0 <= i < bridges.len() && (#[trigger] bridges[i]).cloud == cloud.cloud
            && crate::text::option_view(bridges[i].profile) == crate::text::option_view(
            cloud.profile,
        )
}

/// The steps for the first `n` of the clouds that can have a bridge: where
/// the bridge's configuration can be made, the certificate and the key are
/// handed over; and where the bridge is built in and another is established,
/// the built-in one takes over.
pub open spec fn ownership_steps(
    candidates: Seq<BridgeCandidate>,
    bridges: Seq<CloudBorrow>,
    n: int,
) -> Seq<RefreshStep>
    decreases n,
{
    if n <= 0 {
        Seq::empty()
    } else {
        let before = ownership_steps(candidates, bridges, n - 1);
        let candidate = candidates[n - 1];
        match candidate.location {
            None => before,
            Some(location) => {
                let owned = before.push(RefreshStep::ChownCertificateAndKey(candidate.cloud));
                if location == BridgeLocation::BuiltIn && has_cloud(bridges, candidate.cloud) {
                    owned.push(RefreshStep::UseBuiltInBridge(candidate.cloud))
                } else {
                    owned
                }
            },
        }
    }
}

/// The steps that refresh all the bridges: nothing but a word to the user
/// where no bridge is established and the bridge is not built in; else the
/// shared configuration is written, each established bridge is refreshed
/// unless the bridge is built in, certificates and keys are handed over, and
/// mosquitto is restarted.
pub open spec fn refresh_plan(
    bridges: Seq<CloudBorrow>,
    candidates: Seq<BridgeCandidate>,
    built_in: bool,
) -> Seq<RefreshStep> {
    if bridges.len() == 0 && !built_in {
        seq![RefreshStep::SayNothingToRefresh]
    } else {
        seq![RefreshStep::SaveCommonMosquittoConfig] + (if built_in {
            Seq::empty()
        } else {
            refresh_steps(bridges, bridges.len() as int)
        }) + ownership_steps(candidates, bridges, candidates.len() as int).push(
            RefreshStep::RestartMosquitto,
        )
    }
}

fn is_established(bridges: &Vec<CloudBorrow>, cloud: &CloudBorrow) -> (r: bool)
    ensures
        r == has_cloud(bridges@, *cloud),
{
    let mut i: usize = 0;
    while i < bridges.len()
        invariant
            i <= bridges.len(),
            forall|k: int|
                0 <= k < i ==> !((#[trigger] bridges@[k]).cloud == cloud.cloud
                    && crate::text::option_view(bridges@[k].profile) == crate::text::option_view(
                    cloud.profile,
                )),
        decreases bridges.len() - i,
    {
        let same_kind = match (bridges[i].cloud, cloud.cloud) {
            (Cloud::C8y, Cloud::C8y) | (Cloud::Azure, Cloud::Azure) | (Cloud::Aws, Cloud::Aws) => {
                true
            },
            _ => false,
        };
        let same_profile = match (&bridges[i].profile, &cloud.profile) {
            (Some(a), Some(b)) => crate::text::same_text(a.as_str(), b.as_str()),
            (None, None) => true,
            _ => false,
        };
        if same_kind && same_profile {
            return true;
        }
        i += 1;
    }
    false
}

/// Refreshes all currently active mosquitto bridges (restarts mosquitto).
#[derive(Debug)]
pub struct RefreshBridgesCmd {
    /// Whether the bridge is built into the gateway.
    pub built_in: bool,
    /// The clouds that are configured.
    pub clouds: CloudProfiles,
}

impl RefreshBridgesCmd {
    pub fn new(built_in: bool, clouds: CloudProfiles) -> (cmd: RefreshBridgesCmd)
        ensures
            cmd.built_in == built_in,
            cmd.clouds == clouds,
    {
        RefreshBridgesCmd { built_in, clouds }
    }

    /// What the command does, in words.
    pub fn description(&self) -> (text: String)
        ensures
            text@ == "Refresh all currently active mosquitto bridges (restarts mosquitto)"@,
    {
        owned("Refresh all currently active mosquitto bridges (restarts mosquitto)")
    }

    /// The steps of the command, given the established bridges and, for
    /// each cloud that can have a bridge, where its bridge runs.
    pub fn plan(&self, bridges: &Vec<CloudBorrow>, candidates: &Vec<BridgeCandidate>) -> (steps:
        Vec<RefreshStep>)
        ensures
            steps@ == refresh_plan(bridges@, candidates@, self.built_in),
    {
        let mut steps: Vec<RefreshStep> = Vec::new();
        if bridges.len() == 0 && !self.built_in {
            steps.push(RefreshStep::SayNothingToRefresh);
            assert(steps@ =~= seq![RefreshStep::SayNothingToRefresh]);
            return steps;
        }
        steps.push(RefreshStep::SaveCommonMosquittoConfig);
        let ghost start = steps@;
        if !self.built_in {
            let mut i: usize = 0;
            assert(steps@ =~= start + refresh_steps(bridges@, 0));
            while i < bridges.len()
                invariant
                    i <= bridges.len(),
                    steps@ == start + refresh_steps(bridges@, i as int),
                decreases bridges.len() - i,
            {
                steps.push(RefreshStep::RefreshBridge(bridges[i].clone()));
                i += 1;
                assert(steps@ =~= start + refresh_steps(bridges@, i as int));
            }
        }
        let ghost middle = steps@;
        let mut k: usize = 0;
        assert(steps@ =~= middle + ownership_steps(candidates@, bridges@, 0));
        while k < candidates.len()
            invariant
                k <= candidates.len(),
                steps@ == middle + ownership_steps(candidates@, bridges@, k as int),
            decreases candidates.len() - k,
        {
            // (attempt to) reassert ownership of the certificate and key
            // This is necessary when upgrading from the mosquitto bridge to the built-in bridge
            if let Some(location) = candidates[k].location {
                steps.push(RefreshStep::ChownCertificateAndKey(candidates[k].cloud.clone()));
                let built_in = match location {
                    BridgeLocation::BuiltIn => true,
                    BridgeLocation::Mosquitto => false,
                };
                if built_in && is_established(bridges, &candidates[k].cloud) {
                    steps.push(RefreshStep::UseBuiltInBridge(candidates[k].cloud.clone()));
                }
            }
            k += 1;
            assert(steps@ =~= middle + ownership_steps(candidates@, bridges@, k as int));
        }
        steps.push(RefreshStep::RestartMosquitto);
        assert(steps@ =~= refresh_plan(bridges@, candidates@, self.built_in));
        steps
    }
}

/// The services that the gateway runs on the system.
#[derive(Clone, Copy, PartialEq, Eq, Structural, Debug)]
pub enum SystemService {
    Mosquitto,
    TEdgeMapperAz,
    TEdgeMapperAws,
    TEdgeMapperC8y,
    TEdgeSMAgent,
}

impl SystemService {
    /// The name under which the system knows the service.
    pub fn as_service_name(&self) -> (name: &'static str)
        ensures
            name@ == match self {
                SystemService::Mosquitto => "mosquitto"@,
                SystemService::TEdgeMapperAz => "tedge-mapper-az"@,
                SystemService::TEdgeMapperAws => "tedge-mapper-aws"@,
                SystemService::TEdgeMapperC8y => "tedge-mapper-c8y"@,
                SystemService::TEdgeSMAgent => "tedge-agent"@,
            },
    {
        match self {
            SystemService::Mosquitto => "mosquitto",
            SystemService::TEdgeMapperAz => "tedge-mapper-az",
            SystemService::TEdgeMapperAws => "tedge-mapper-aws",
            SystemService::TEdgeMapperC8y => "tedge-mapper-c8y",
            SystemService::TEdgeSMAgent => "tedge-agent",
        }
    }
}

/// A service could not be managed; the text says why.
#[derive(Debug)]
pub struct SystemServiceError {
    pub reason: String,
}

/// Abstraction over the system-provided facility that manages starting,
/// stopping as well as other service-related management functions of system
/// services.
pub trait SystemServiceManager {
    /// Returns the name of the system service manager facility (e.g.
    /// "systemd" or "openrc").
    fn name(&self) -> String;

    /// Checks whether the system service manager facility is available and
    /// operational.
    fn check_operational(&self) -> Result<(), SystemServiceError>;

    /// Stops the specified system service.
    fn stop_service(&self, service: SystemService) -> Result<(), SystemServiceError>;

    /// Starts the specified system service.
    fn start_service(&self, service: SystemService) -> Result<(), SystemServiceError>;

    /// Restarts the specified system service.
    fn restart_service(&self, service: SystemService) -> Result<(), SystemServiceError>;

    /// Enables the specified system service. This does not start the
    /// service, unless you reboot.
    fn enable_service(&self, service: SystemService) -> Result<(), SystemServiceError>;

    /// Disables the specified system service. This does not stop the service.
    fn disable_service(&self, service: SystemService) -> Result<(), SystemServiceError>;

    /// Queries status of the specified system service. "Running" here means
    /// the same as "active".
    fn is_service_running(&self, service: SystemService) -> Result<bool, SystemServiceError>;
}

/// The command line's words for reconnecting a bridge.
#[derive(Clone, Copy, PartialEq, Eq, Structural, Debug)]
pub enum TEdgeReconnectCli {
    /// Remove bridge connection to Cumulocity.
    C8y,
    /// Remove bridge connection to Azure.
    Az,
    /// Remove bridge connection to AWS.
    Aws,
}

/// What reconnecting a bridge needs to know.
#[derive(Debug)]
pub struct ReconnectBridgeCommand {
    pub config_file: String,
    pub cloud: Cloud,
    pub use_mapper: bool,
}

impl TEdgeReconnectCli {
    /// The cloud that is meant.
    pub open spec fn cloud(self) -> Cloud {
        match self {
            TEdgeReconnectCli::C8y => Cloud::C8y,
            TEdgeReconnectCli::Az => Cloud::Azure,
            TEdgeReconnectCli::Aws => Cloud::Aws,
        }
    }

    /// The command that reconnects the bridge of the cloud that is meant.
    pub fn build_command(self) -> (cmd: ReconnectBridgeCommand)
        ensures
            cmd.cloud == self.cloud(),
            cmd.config_file@ == bridge_config_filename(self.cloud(), None),
            cmd.use_mapper,
    {
        let cloud = match self {
            TEdgeReconnectCli::C8y => Cloud::C8y,
            TEdgeReconnectCli::Az => Cloud::Azure,
            TEdgeReconnectCli::Aws => Cloud::Aws,
        };
        let config_file = (CloudBorrow { cloud, profile: None }).bridge_config_filename();
        ReconnectBridgeCommand { config_file, cloud, use_mapper: true }
    }
}

/// The command line's words for the device certificate.
#[derive(Debug)]
pub enum TEdgeCertCli {
    /// Create a self-signed device certificate
    Create {
        /// The device identifier to be used as the common name for the certificate
        id: String,
    },
    /// Create a certificate signing request
    CreateCsr {
        /// The device identifier to be used as the common name for the certificate
        id: Option<String>,
        /// Path where a Certificate signing request will be stored
        output_path: Option<String>,
    },
    /// Renew the device certificate
    Renew,
    /// Show the device certificate, if any
    Show,
    /// Remove the device certificate
    Remove,
    /// Upload root certificate
    Upload(UploadCertCli),
}

/// The words for uploading the certificate.
#[derive(Debug)]
pub struct UploadCertCli {
    pub cloud: CloudBorrow,
    /// A user of the cloud with the permission to manage the tenant.
    pub username: String,
    pub password: String,
}

/// The address of a cloud of Cumulocity, under a profile.
#[derive(Debug)]
pub struct C8yHost {
    pub profile: Option<String>,
    pub http: Option<String>,
}

/// What the commands for the certificate read of the configuration.
#[derive(Debug)]
pub struct CertConfig {
    /// Whether the bridge is built into the gateway.
    pub bridge_built_in: bool,
    pub device_id: Option<String>,
    pub cert_path: String,
    pub key_path: String,
    pub csr_path: String,
    pub c8y: Vec<C8yHost>,
}

/// Why a command could not be made.
#[derive(Debug)]
pub enum ConfigError {
    /// The device has no id.
    DeviceIdNotSet,
    /// No cloud is configured under the profile.
    UnknownProfile,
    /// The cloud has no address.
    HostNotSet,
    /// Certificates can be uploaded to Cumulocity alone.
    UploadNotSupported { message: String },
}

#[derive(Debug)]
pub struct CreateCertCmd {
    pub id: String,
    pub cert_path: String,
    pub key_path: String,
    pub user: String,
    pub group: String,
}

#[derive(Debug)]
pub struct CreateCsrCmd {
    pub id: String,
    pub key_path: String,
    pub csr_path: String,
    pub user: String,
    pub group: String,
}

#[derive(Debug)]
pub struct ShowCertCmd {
    pub cert_path: String,
}

#[derive(Debug)]
pub struct RemoveCertCmd {
    pub cert_path: String,
    pub key_path: String,
}

#[derive(Debug)]
pub struct RenewCertCmd {
    pub cert_path: String,
    pub key_path: String,
}

#[derive(Debug)]
pub struct UploadCertCmd {
    pub device_id: String,
    pub path: String,
    pub host: String,
    pub username: String,
    pub password: String,
}

/// A command for the certificate.
#[derive(Debug)]
pub enum CertCommand {
    Create(CreateCertCmd),
    CreateCsr(CreateCsrCmd),
    Show(ShowCertCmd),
    Remove(RemoveCertCmd),
    Upload(UploadCertCmd),
    Renew(RenewCertCmd),
}

/// The user, and the group, to whom the certificate belongs: the gateway's
/// own where the bridge is built in, else the broker's.
pub open spec fn certificate_owner(bridge_built_in: bool) -> Seq<char> {
    if bridge_built_in {
        "tedge"@
    } else {
        "mosquitto"@
    }
}

/// The first of the hosts that stands under the profile.
pub open spec fn host_of(hosts: Seq<C8yHost>, profile: Option<Seq<char>>) -> Option<C8yHost>
    decreases hosts.len(),
{
    if hosts.len() == 0 {
        None
    } else if crate::text::option_view(hosts[0].profile) == profile {
        Some(hosts[0])
    } else {
        host_of(hosts.drop_first(), profile)
    }
}

/// The message for a cloud to which certificates cannot be uploaded.
pub open spec fn upload_not_supported(cloud: Cloud, profile: Option<Seq<char>>) -> Seq<char> {
    "Uploading certificates via the tedge cli isn't supported for "@ + match profile {
        None => cloud_prefix(cloud),
        Some(p) => cloud_prefix(cloud) + "@"@ + p,
    }
}

fn find_host<'a>(hosts: &'a Vec<C8yHost>, profile: &Option<String>) -> (r: Option<&'a C8yHost>)
    ensures
        match host_of(hosts@, crate::text::option_view(*profile)) {
            Some(host) => r matches Some(found) && *found == host,
            None => r is None,
        },
{
    let ghost wanted = crate::text::option_view(*profile);
    let mut i: usize = 0;
    assert(hosts@.skip(0) =~= hosts@);
    while i < hosts.len()
        invariant
            i <= hosts.len(),
            wanted == crate::text::option_view(*profile),
            host_of(hosts@, wanted) == host_of(hosts@.skip(i as int), wanted),
        decreases hosts.len() - i,
    {
        proof {
            assert(hosts@.skip(i as int)[0] == hosts@[i as int]);
            assert(hosts@.skip(i as int).drop_first() =~= hosts@.skip(i + 1));
        }
        let same = match (&hosts[i].profile, profile) {
            (Some(a), Some(b)) => crate::text::same_text(a.as_str(), b.as_str()),
            (None, None) => true,
            _ => false,
        };
        if same {
            return Some(&hosts[i]);
        }
        i += 1;
    }
    assert(hosts@.skip(i as int).len() == 0);
    None
}

impl TEdgeCertCli {
    /// The command that the words stand for.
    ///
    /// A signing request is made for the device's own id where none is
    /// given, and stored where the configuration says where no place is
    /// given. The certificate can be uploaded to Cumulocity alone, and this
    /// needs the device's id and the cloud's address.
    pub fn build_command(self, config: &CertConfig) -> (r: Result<CertCommand, ConfigError>)
        ensures
            match self {
                TEdgeCertCli::Create { id } => {
                    &&& r matches Ok(CertCommand::Create(cmd))
                    &&& cmd.id == id
                    &&& cmd.cert_path == config.cert_path
                    &&& cmd.key_path == config.key_path
                    &&& cmd.user@ == certificate_owner(config.bridge_built_in)
                    &&& cmd.group@ == certificate_owner(config.bridge_built_in)
                },
                TEdgeCertCli::CreateCsr { id, output_path } => {
                    if id is None && config.device_id is None {
                        r matches Err(ConfigError::DeviceIdNotSet)
                    } else {
                        &&& r matches Ok(CertCommand::CreateCsr(cmd))
                        &&& cmd.id == if id is Some {
                            id.unwrap()
                        } else {
                            config.device_id.unwrap()
                        }
                        &&& cmd.key_path == config.key_path
                        &&& cmd.csr_path == if output_path is Some {
                            output_path.unwrap()
                        } else {
                            config.csr_path
                        }
                        &&& cmd.user@ == certificate_owner(config.bridge_built_in)
                        &&& cmd.group@ == certificate_owner(config.bridge_built_in)
                    }
                },
                TEdgeCertCli::Show => r matches Ok(CertCommand::Show(cmd)) && cmd.cert_path
                    == config.cert_path,
                TEdgeCertCli::Remove => r matches Ok(CertCommand::Remove(cmd)) && cmd.cert_path
                    == config.cert_path && cmd.key_path == config.key_path,
                TEdgeCertCli::Renew => r matches Ok(CertCommand::Renew(cmd)) && cmd.cert_path
                    == config.cert_path && cmd.key_path == config.key_path,
                TEdgeCertCli::Upload(upload) => {
                    let profile = crate::text::option_view(upload.cloud.profile);
                    if upload.cloud.cloud != Cloud::C8y {
                        r matches Err(ConfigError::UploadNotSupported { message }) && message@
                            == upload_not_supported(upload.cloud.cloud, profile)
                    } else if config.device_id is None {
                        r matches Err(ConfigError::DeviceIdNotSet)
                    } else if host_of(config.c8y@, profile) is None {
                        r matches Err(ConfigError::UnknownProfile)
                    } else if host_of(config.c8y@, profile).unwrap().http is None {
                        r matches Err(ConfigError::HostNotSet)
                    } else {
                        &&& r matches Ok(CertCommand::Upload(cmd))
                        &&& cmd.device_id == config.device_id.unwrap()
                        &&& cmd.path == config.cert_path
                        &&& cmd.host == host_of(config.c8y@, profile).unwrap().http.unwrap()
                        &&& cmd.username == upload.username
                        &&& cmd.password == upload.password
                    }
                },
            },
    {
        let owner = if config.bridge_built_in {
            "tedge"
        } else {
            "mosquitto"
        };
        let cmd = match self {
            TEdgeCertCli::Create { id } => CertCommand::Create(
                CreateCertCmd {
                    id,
                    cert_path: config.cert_path.clone(),
                    key_path: config.key_path.clone(),
                    user: owned(owner),
                    group: owned(owner),
                },
            ),
            TEdgeCertCli::CreateCsr { id, output_path } => {
                // Use the current device id if no id is provided
                let id = match id {
                    Some(id) => id,
                    None => match &config.device_id {
                        Some(id) => id.clone(),
                        None => {
                            return Err(ConfigError::DeviceIdNotSet);
                        },
                    },
                };
                CertCommand::CreateCsr(
                    CreateCsrCmd {
                        id,
                        key_path: config.key_path.clone(),
                        // Use output file instead of csr_path from tedge config if provided
                        csr_path: match output_path {
                            Some(path) => path,
                            None => config.csr_path.clone(),
                        },
                        user: owned(owner),
                        group: owned(owner),
                    },
                )
            },
            TEdgeCertCli::Show => CertCommand::Show(
                ShowCertCmd { cert_path: config.cert_path.clone() },
            ),
            TEdgeCertCli::Remove => CertCommand::Remove(
                RemoveCertCmd {
                    cert_path: config.cert_path.clone(),
                    key_path: config.key_path.clone(),
                },
            ),
            TEdgeCertCli::Upload(cmd) => {
                match cmd.cloud.cloud {
                    Cloud::C8y => {},
                    _ => {
                        let mut message = owned(
                            "Uploading certificates via the tedge cli isn't supported for ",
                        );
                        message.append(cmd.cloud.to_string().as_str());
                        return Err(ConfigError::UploadNotSupported { message });
                    },
                }
                let device_id = match &config.device_id {
                    Some(id) => id.clone(),
                    None => {
                        return Err(ConfigError::DeviceIdNotSet);
                    },
                };
                let host = match find_host(&config.c8y, &cmd.cloud.profile) {
                    Some(host) => match &host.http {
                        Some(http) => http.clone(),
                        None => {
                            return Err(ConfigError::HostNotSet);
                        },
                    },
                    None => {
                        return Err(ConfigError::UnknownProfile);
                    },
                };
                CertCommand::Upload(
                    UploadCertCmd {
                        device_id,
                        path: config.cert_path.clone(),
                        host,
                        username: cmd.username,
                        password: cmd.password,
                    },
                )
            },
            TEdgeCertCli::Renew => CertCommand::Renew(
                RenewCertCmd {
                    cert_path: config.cert_path.clone(),
                    key_path: config.key_path.clone(),
                },
            ),
        };
        Ok(cmd)
    }
}

} // verus!
