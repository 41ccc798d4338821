//! The application settings the pipeline reads, and their holder.

use vstd::prelude::*;
use crate::job::clone_text;
use crate::pipeline::PipelineSettings;

verus! {

/// User settings. The pipeline takes a snapshot at the start of each run.
#[derive(Debug)]
pub struct AppConfig {
    pub initialized: bool,
    pub vault_path: String,
    pub output_subfolder: String,
    pub model_size: String,
    pub preload_model: bool,
    pub language: Option<String>,
    pub enable_summarization: bool,
    pub auto_summarize_after_transcription: bool,
    pub ollama_base_url: String,
    pub ollama_model: String,
    pub summary_prompt: String,
    pub include_timestamps: bool,
    pub watch_inbox_enabled: bool,
    pub inbox_poll_seconds: u32,
    pub whisper_binary_url: Option<String>,
    pub ffmpeg_binary_url: Option<String>,
}

impl Default for AppConfig {
    fn default() -> (r: AppConfig)
        ensures
            !r.initialized,
            r.vault_path@.len() == 0,
            r.output_subfolder@ == "VoiceNote"@,
            r.model_size@ == "small"@,
            !r.preload_model,
            r.language matches Some(l) && l@ == "en"@,
            r.enable_summarization,
            r.auto_summarize_after_transcription,
            r.ollama_base_url@ == "http://127.0.0.1:11434"@,
            r.ollama_model@ == "qwen2.5:7b-instruct"@,
            r.summary_prompt@ == "Summarize the transcript."@,
            r.include_timestamps,
            !r.watch_inbox_enabled,
            r.inbox_poll_seconds == 10,
            r.whisper_binary_url matches Some(u) && u@
                == "https://github.com/bizenlabs/whisper-cpp-macos-bin/releases/latest"@,
            r.ffmpeg_binary_url matches Some(u) && u@
                == "https://github.com/ravaru/voicenoteapp/releases/latest/download/ffmpeg-macos-arm64-lgpl.zip"@,
    {
        AppConfig {
            initialized: false,
            vault_path: String::new(),
            output_subfolder: "VoiceNote".to_owned(),
            model_size: "small".to_owned(),
            preload_model: false,
            language: Some("en".to_owned()),
            enable_summarization: true,
            auto_summarize_after_transcription: true,
            ollama_base_url: "http://127.0.0.1:11434".to_owned(),
            ollama_model: "qwen2.5:7b-instruct".to_owned(),
            summary_prompt: "Summarize the transcript.".to_owned(),
            include_timestamps: true,
            watch_inbox_enabled: false,
            inbox_poll_seconds: 10,
            whisper_binary_url: Some(
                "https://github.com/bizenlabs/whisper-cpp-macos-bin/releases/latest".to_owned(),
            ),
            ffmpeg_binary_url: Some(
                "https://github.com/ravaru/voicenoteapp/releases/latest/download/ffmpeg-macos-arm64-lgpl.zip".to_owned(),
            ),
        }
    }
}

impl AppConfig {
    /// A copy of the settings.
    pub fn snapshot(&self) -> (r: AppConfig)
        ensures
            r == *self,
    {
        AppConfig {
            initialized: self.initialized,
            vault_path: self.vault_path.clone(),
            output_subfolder: self.output_subfolder.clone(),
            model_size: self.model_size.clone(),
            preload_model: self.preload_model,
            language: clone_text(&self.language),
            enable_summarization: self.enable_summarization,
            auto_summarize_after_transcription: self.auto_summarize_after_transcription,
            ollama_base_url: self.ollama_base_url.clone(),
            ollama_model: self.ollama_model.clone(),
            summary_prompt: self.summary_prompt.clone(),
            include_timestamps: self.include_timestamps,
            watch_inbox_enabled: self.watch_inbox_enabled,
            inbox_poll_seconds: self.inbox_poll_seconds,
            whisper_binary_url: clone_text(&self.whisper_binary_url),
            ffmpeg_binary_url: clone_text(&self.ffmpeg_binary_url),
        }
    }

    /// What one pipeline run takes from the settings.
    pub fn pipeline_settings(&self) -> (r: PipelineSettings)
        ensures
            r.model_size == self.model_size,
            r.language == self.language,
            r.summarize == self.enable_summarization,
            r.auto_summarize == self.auto_summarize_after_transcription,
    {
        PipelineSettings {
            model_size: self.model_size.clone(),
            language: clone_text(&self.language),
            summarize: self.enable_summarization,
            auto_summarize: self.auto_summarize_after_transcription,
        }
    }
}

/// The settings and the file they are saved in.
#[derive(Debug)]
pub struct ConfigState {
    pub path: String,
    pub config: AppConfig,
}

impl ConfigState {
    /// Replaces the settings; returns what is now held.
    pub fn update(&mut self, cfg: AppConfig) -> (r: AppConfig)
        ensures
            final(self).config == cfg,
            final(self).path == old(self).path,
            r == cfg,
    {
        self.config = cfg;
        self.config.snapshot()
    }

    /// Replaces the settings, marked as initialized; returns what is now held.
    pub fn initialize(&mut self, cfg: AppConfig) -> (r: AppConfig)
        ensures
            final(self).config == (AppConfig { initialized: true, ..cfg }),
            final(self).path == old(self).path,
            r == final(self).config,
    {
        let mut cfg = cfg;
        cfg.initialized = true;
        self.config = cfg;
        self.config.snapshot()
    }

    /// Whether the settings have been initialized.
    pub fn is_initialized(&self) -> (r: bool)
        ensures
            r == self.config.initialized,
    {
        self.config.initialized
    }
}

} // verus!
